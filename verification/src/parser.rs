//! The shell alias file: `alias name='command'` lines, grouped by
//! `# group: Name` comment lines, each command classified as an SSO login, an
//! SSM session or something else.
use vstd::prelude::*;
use crate::text::{
    is_ws, is_space, ws_end, skip_ws, occurs_at, contains_seq, matches_at, chars_of, slice_vec,
    string_of, str_contains, trim, trim_chars, occurs_at_ci, matches_at_ci, lines_of, split_lines,
    str_to_string,
};
use crate::text::{joined, join_path, first_flagged, first_flagged_of, lemma_first_flagged};
use crate::json::{Json, JsonV, json_view, json_parse, parse_json, jget, jstr, get, as_str};

verus! {

// ─── Types ──────────────────────────────────────────────────────────────────
/// What an alias's command does.
#[derive(Debug, Clone, PartialEq)]
pub enum AliasKind {
    SsoLogin { session_name: String },
    SsmSession {
        target: String,
        document: Option<String>,
        local_port: Option<String>,
        remote_port: Option<String>,
        host: Option<String>,
    },
    Other,
}

/// One `alias name='command'` line of the alias file.
#[derive(Debug, Clone)]
pub struct Alias {
    pub name: String,
    pub command: String,
    pub kind: AliasKind,
    pub group: String,
}

/// The value of an `AliasKind`.
pub enum AliasKindV {
    SsoLogin { session_name: Seq<char> },
    SsmSession {
        target: Seq<char>,
        document: Option<Seq<char>>,
        local_port: Option<Seq<char>>,
        remote_port: Option<Seq<char>>,
        host: Option<Seq<char>>,
    },
    Other,
}

/// The value of an `Alias`.
pub struct AliasV {
    pub name: Seq<char>,
    pub command: Seq<char>,
    pub kind: AliasKindV,
    pub group: Seq<char>,
}

pub open spec fn opt_view(o: Option<String>) -> Option<Seq<char>> {
    match o {
        Some(s) => Some(s@),
        None => None,
    }
}

impl AliasKind {
    pub open spec fn view(&self) -> AliasKindV {
        match self {
            AliasKind::SsoLogin { session_name } => AliasKindV::SsoLogin {
                session_name: session_name@,
            },
            AliasKind::SsmSession { target, document, local_port, remote_port, host } => {
                AliasKindV::SsmSession {
                    target: target@,
                    document: opt_view(*document),
                    local_port: opt_view(*local_port),
                    remote_port: opt_view(*remote_port),
                    host: opt_view(*host),
                }
            },
            AliasKind::Other => AliasKindV::Other,
        }
    }
}

impl Alias {
    pub open spec fn view(&self) -> AliasV {
        AliasV { name: self.name@, command: self.command@, kind: self.kind.view(), group: self.group@ }
    }
}

/// The values of a list of aliases.
pub open spec fn aliases_view(v: Seq<Alias>) -> Seq<AliasV> {
    Seq::new(v.len(), |i: int| v[i].view())
}

// ─── Command-line flags ─────────────────────────────────────────────────────
/// End of the run of non-whitespace characters starting at `i`.
pub open spec fn nonws_end(s: Seq<char>, i: int) -> int
    decreases s.len() - i,
{
    if 0 <= i < s.len() && !is_ws(s[i]) {
        nonws_end(s, i + 1)
    } else {
        i
    }
}

pub proof fn lemma_nonws_end(s: Seq<char>, i: int)
    requires
        0 <= i <= s.len(),
    ensures
        i <= nonws_end(s, i) <= s.len(),
    decreases s.len() - i,
{
    if i < s.len() && !is_ws(s[i]) {
        lemma_nonws_end(s, i + 1);
    }
}

/// The argument of `flag` where it stands at `p`: the pattern `flag\s+(\S+)`.
pub open spec fn flag_arg_at(s: Seq<char>, flag: Seq<char>, p: int) -> Option<Seq<char>> {
    let q = p + flag.len();
    let a = ws_end(s, q);
    if occurs_at(s, flag, p) && a > q && a < s.len() {
        Some(s.subrange(a, nonws_end(s, a)))
    } else {
        None
    }
}

/// The leftmost match at or after `p` of `flag\s+(\S+)`: the argument that
/// follows the first occurrence of `flag` that is followed by whitespace and
/// then a non-blank word.
pub open spec fn flag_arg_from(s: Seq<char>, flag: Seq<char>, p: int) -> Option<Seq<char>>
    decreases s.len() + 1 - p,
{
    if p < 0 || p > s.len() {
        None
    } else {
        match flag_arg_at(s, flag, p) {
            Some(a) => Some(a),
            None => flag_arg_from(s, flag, p + 1),
        }
    }
}

/// The argument of `flag` in `s` (the regex `flag\s+(\S+)`).
pub open spec fn flag_arg(s: Seq<char>, flag: Seq<char>) -> Option<Seq<char>> {
    flag_arg_from(s, flag, 0)
}

/// Executable `nonws_end`.
pub fn skip_nonws(s: &Vec<char>, i: usize) -> (r: usize)
    requires
        i <= s@.len(),
    ensures
        r == nonws_end(s@, i as int),
        i <= r <= s@.len(),
{
    let mut j = i;
    while j < s.len() && !is_space(s[j])
        invariant
            i <= j <= s@.len(),
            nonws_end(s@, i as int) == nonws_end(s@, j as int),
        decreases s@.len() - j,
    {
        j = j + 1;
    }
    j
}

/// Executable `flag_arg`.
pub fn find_flag_arg(s: &Vec<char>, flag: &str) -> (r: Option<Vec<char>>)
    ensures
        match r {
            Some(v) => flag_arg(s@, flag@) == Some(v@),
            None => flag_arg(s@, flag@) is None,
        },
{
    let f = chars_of(flag);
    let mut p: usize = 0;
    while p <= s.len()
        invariant
            p <= s@.len() + 1,
            f@ == flag@,
            flag_arg(s@, flag@) == flag_arg_from(s@, flag@, p as int),
        decreases s@.len() + 1 - p,
    {
        if matches_at(s, &f, p) {
            let q = p + f.len();
            let a = skip_ws(s, q);
            if a > q && a < s.len() {
                let b = skip_nonws(s, a);
                return Some(slice_vec(s, a, b));
            }
        }
        if p == s.len() {
            assert(flag_arg_from(s@, flag@, p + 1) is None);
            return None;
        }
        p = p + 1;
    }
    None
}

/// The rest of the line after `flag` where it stands at `p`: the pattern
/// `flag\s+(.+)$` on a line without `\n`.
pub open spec fn flag_rest_at(s: Seq<char>, flag: Seq<char>, p: int) -> Option<Seq<char>> {
    let q = p + flag.len();
    let a = ws_end(s, q);
    if !occurs_at(s, flag, p) || a == q {
        None
    } else if a < s.len() {
        Some(s.subrange(a, s.len() as int))
    } else if a - q >= 2 {
        Some(s.subrange(s.len() - 1, s.len() as int))
    } else {
        None
    }
}

/// The leftmost match at or after `p` of `flag\s+(.+)$`.
pub open spec fn flag_rest_from(s: Seq<char>, flag: Seq<char>, p: int) -> Option<Seq<char>>
    decreases s.len() + 1 - p,
{
    if p < 0 || p > s.len() {
        None
    } else {
        match flag_rest_at(s, flag, p) {
            Some(a) => Some(a),
            None => flag_rest_from(s, flag, p + 1),
        }
    }
}

/// What follows `flag` to the end of a line (the regex `flag\s+(.+)$`).
pub open spec fn flag_rest(s: Seq<char>, flag: Seq<char>) -> Option<Seq<char>> {
    flag_rest_from(s, flag, 0)
}

/// Executable `flag_rest`.
pub fn find_flag_rest(s: &Vec<char>, flag: &str) -> (r: Option<Vec<char>>)
    ensures
        match r {
            Some(v) => flag_rest(s@, flag@) == Some(v@),
            None => flag_rest(s@, flag@) is None,
        },
{
    let f = chars_of(flag);
    let mut p: usize = 0;
    while p <= s.len()
        invariant
            p <= s@.len() + 1,
            f@ == flag@,
            flag_rest(s@, flag@) == flag_rest_from(s@, flag@, p as int),
        decreases s@.len() + 1 - p,
    {
        if matches_at(s, &f, p) {
            let q = p + f.len();
            let a = skip_ws(s, q);
            if a > q {
                if a < s.len() {
                    return Some(slice_vec(s, a, s.len()));
                } else if a - q >= 2 {
                    return Some(slice_vec(s, s.len() - 1, s.len()));
                }
            }
        }
        if p == s.len() {
            assert(flag_rest_from(s@, flag@, p + 1) is None);
            return None;
        }
        p = p + 1;
    }
    None
}

// ─── SSM `--parameters` ─────────────────────────────────────────────────────
/// `s` without any backslash.
pub open spec fn drop_backslashes(s: Seq<char>) -> Seq<char>
    decreases s.len(),
{
    if s.len() == 0 {
        s
    } else if s[0] == '\\' {
        drop_backslashes(s.drop_first())
    } else {
        seq![s[0]] + drop_backslashes(s.drop_first())
    }
}

/// `s.replace("'{", "{")`.
pub open spec fn unquote_open(s: Seq<char>) -> Seq<char>
    decreases s.len(),
{
    if s.len() == 0 {
        s
    } else if s.len() >= 2 && s[0] == '\'' && s[1] == '{' {
        seq!['{'] + unquote_open(s.skip(2))
    } else {
        seq![s[0]] + unquote_open(s.drop_first())
    }
}

/// `s.replace("}'", "}")`.
pub open spec fn unquote_close(s: Seq<char>) -> Seq<char>
    decreases s.len(),
{
    if s.len() == 0 {
        s
    } else if s.len() >= 2 && s[0] == '}' && s[1] == '\'' {
        seq!['}'] + unquote_close(s.skip(2))
    } else {
        seq![s[0]] + unquote_close(s.drop_first())
    }
}

/// The `--parameters` text with shell quoting removed.
pub open spec fn clean_params(s: Seq<char>) -> Seq<char> {
    unquote_close(unquote_open(drop_backslashes(s)))
}

fn drop_backslashes_exec(s: &Vec<char>) -> (r: Vec<char>)
    ensures
        r@ == drop_backslashes(s@),
{
    let mut r: Vec<char> = Vec::new();
    let mut k: usize = 0;
    proof {
        lemma_drop_backslashes_concat(s@, 0);
    }
    while k < s.len()
        invariant
            k <= s@.len(),
            drop_backslashes(s@) == r@ + drop_backslashes(s@.skip(k as int)),
        decreases s@.len() - k,
    {
        let ghost t = s@.skip(k as int);
        assert(t.drop_first() =~= s@.skip(k + 1));
        if s[k] != '\\' {
            r.push(s[k]);
            assert(r@ + drop_backslashes(s@.skip(k + 1)) =~= r@.drop_last() + (seq![s@[k as int]]
                + drop_backslashes(s@.skip(k + 1))));
        }
        k = k + 1;
    }
    assert(s@.skip(k as int).len() == 0);
    assert(r@ + drop_backslashes(s@.skip(k as int)) =~= r@);
    r
}

proof fn lemma_drop_backslashes_concat(s: Seq<char>, k: int)
    requires
        k == 0,
    ensures
        drop_backslashes(s) == Seq::<char>::empty() + drop_backslashes(s.skip(k)),
{
    assert(s.skip(0) =~= s);
    assert(Seq::<char>::empty() + drop_backslashes(s) =~= drop_backslashes(s));
}

fn unquote_open_exec(s: &Vec<char>) -> (r: Vec<char>)
    ensures
        r@ == unquote_open(s@),
{
    let mut r: Vec<char> = Vec::new();
    let mut k: usize = 0;
    assert(s@.skip(0) =~= s@);
    assert(r@ + unquote_open(s@.skip(0)) =~= unquote_open(s@));
    while k < s.len()
        invariant
            k <= s@.len(),
            unquote_open(s@) == r@ + unquote_open(s@.skip(k as int)),
        decreases s@.len() - k,
    {
        let ghost t = s@.skip(k as int);
        if k + 1 < s.len() && s[k] == '\'' && s[k + 1] == '{' {
            assert(t.skip(2) =~= s@.skip(k + 2));
            r.push('{');
            assert(r@ + unquote_open(s@.skip(k + 2)) =~= r@.drop_last() + (seq!['{']
                + unquote_open(s@.skip(k + 2))));
            k = k + 2;
        } else {
            assert(t.drop_first() =~= s@.skip(k + 1));
            r.push(s[k]);
            assert(r@ + unquote_open(s@.skip(k + 1)) =~= r@.drop_last() + (seq![s@[k as int]]
                + unquote_open(s@.skip(k + 1))));
            k = k + 1;
        }
    }
    assert(s@.skip(k as int).len() == 0);
    assert(r@ + unquote_open(s@.skip(k as int)) =~= r@);
    r
}

fn unquote_close_exec(s: &Vec<char>) -> (r: Vec<char>)
    ensures
        r@ == unquote_close(s@),
{
    let mut r: Vec<char> = Vec::new();
    let mut k: usize = 0;
    assert(s@.skip(0) =~= s@);
    assert(r@ + unquote_close(s@.skip(0)) =~= unquote_close(s@));
    while k < s.len()
        invariant
            k <= s@.len(),
            unquote_close(s@) == r@ + unquote_close(s@.skip(k as int)),
        decreases s@.len() - k,
    {
        let ghost t = s@.skip(k as int);
        if k + 1 < s.len() && s[k] == '}' && s[k + 1] == '\'' {
            assert(t.skip(2) =~= s@.skip(k + 2));
            r.push('}');
            assert(r@ + unquote_close(s@.skip(k + 2)) =~= r@.drop_last() + (seq!['}']
                + unquote_close(s@.skip(k + 2))));
            k = k + 2;
        } else {
            assert(t.drop_first() =~= s@.skip(k + 1));
            r.push(s[k]);
            assert(r@ + unquote_close(s@.skip(k + 1)) =~= r@.drop_last() + (seq![s@[k as int]]
                + unquote_close(s@.skip(k + 1))));
            k = k + 1;
        }
    }
    assert(s@.skip(k as int).len() == 0);
    assert(r@ + unquote_close(s@.skip(k as int)) =~= r@);
    r
}

/// The first string among `a[i..]`.
pub open spec fn first_str_from(a: Seq<JsonV>, i: int) -> Option<Seq<char>>
    decreases a.len() - i,
{
    if i < 0 || i >= a.len() {
        None
    } else {
        match jstr(a[i]) {
            Some(s) => Some(s),
            None => first_str_from(a, i + 1),
        }
    }
}

/// The first value of parameter `key` in a parsed `--parameters` object: the
/// first string of an array value, or a string value itself.
pub open spec fn param_first(obj: JsonV, key: Seq<char>) -> Option<Seq<char>> {
    match jget(obj, key) {
        Some(JsonV::Array(a)) => first_str_from(a, 0),
        Some(JsonV::Str(s)) => Some(s),
        _ => None,
    }
}

/// The first value of `key` in the `--parameters` text `params` (none where
/// the cleaned text is not a JSON object).
pub open spec fn ssm_param(params: Seq<char>, key: Seq<char>) -> Option<Seq<char>> {
    match json_parse(clean_params(params)) {
        Some(JsonV::Object(m)) => param_first(JsonV::Object(m), key),
        _ => None,
    }
}

/// The parsed `--parameters` text, when it is a JSON object.
pub fn parse_ssm_parameters(params: &Vec<char>) -> (r: Option<Json>)
    ensures
        match r {
            Some(j) => json_parse(clean_params(params@)) == Some(json_view(j)) && json_view(
                j,
            ) is Object,
            None => !(json_parse(clean_params(params@)) matches Some(JsonV::Object(_))),
        },
{
    let a = drop_backslashes_exec(params);
    let b = unquote_open_exec(&a);
    let c = unquote_close_exec(&b);
    let text = string_of(&c);
    match parse_json(text.as_str()) {
        Ok(j) => {
            match j {
                Json::Object(_) => Some(j),
                _ => None,
            }
        },
        Err(_) => None,
    }
}

/// The first value of `key` in a parsed parameters object.
pub fn param_value(obj: &Json, key: &str) -> (r: Option<String>)
    ensures
        opt_view(r) == param_first(json_view(*obj), key@),
{
    match get(obj, key) {
        Some(v) => match v {
            Json::Array(a) => {
                let mut i: usize = 0;
                while i < a.len()
                    invariant
                        i <= a@.len(),
                        jget(json_view(*obj), key@) == Some(json_view(*v)),
                        json_view(*v) is Array,
                        json_view(*v)->Array_0.len() == a@.len(),
                        forall|t: int|
                            0 <= t < a@.len() ==> json_view(*v)->Array_0[t] == #[trigger] json_view(
                                a@[t],
                            ),
                        first_str_from(json_view(*v)->Array_0, 0) == first_str_from(
                            json_view(*v)->Array_0,
                            i as int,
                        ),
                    decreases a@.len() - i,
                {
                    assert(json_view(*v)->Array_0[i as int] == json_view(a@[i as int]));
                    match as_str(&a[i]) {
                        Some(s) => {
                            return Some(s.clone());
                        },
                        None => {},
                    }
                    i = i + 1;
                }
                None
            },
            Json::Str(s) => Some(s.clone()),
            _ => None,
        },
        None => None,
    }
}

// ─── Classification ─────────────────────────────────────────────────────────
/// The kind of an alias command: an SSO login (`aws sso login`), an SSM
/// session (`aws ssm start-session`), or another command.
pub open spec fn classify_spec(c: Seq<char>) -> AliasKindV {
    if contains_seq(c, "aws sso login"@) {
        AliasKindV::SsoLogin {
            session_name: match flag_arg(c, "--sso-session"@) {
                Some(n) => n,
                None => Seq::empty(),
            },
        }
    } else if contains_seq(c, "aws ssm start-session"@) {
        let params = flag_rest(c, "--parameters"@);
        AliasKindV::SsmSession {
            target: match flag_arg(c, "--target"@) {
                Some(t) => t,
                None => Seq::empty(),
            },
            document: flag_arg(c, "--document-name"@),
            local_port: match params {
                Some(p) => ssm_param(p, "localPortNumber"@),
                None => None,
            },
            remote_port: match params {
                Some(p) => ssm_param(p, "portNumber"@),
                None => None,
            },
            host: match params {
                Some(p) => ssm_param(p, "host"@),
                None => None,
            },
        }
    } else {
        AliasKindV::Other
    }
}

fn opt_string(v: Option<Vec<char>>) -> (r: Option<String>)
    ensures
        opt_view(r) == (match v {
            Some(x) => Some(x@),
            None => None::<Seq<char>>,
        }),
{
    match v {
        Some(x) => Some(string_of(&x)),
        None => None,
    }
}

fn string_or_empty(v: Option<Vec<char>>) -> (r: String)
    ensures
        r@ == (match v {
            Some(x) => x@,
            None => Seq::<char>::empty(),
        }),
{
    match v {
        Some(x) => string_of(&x),
        None => String::new(),
    }
}

/// Classifies an alias command (see `classify_spec`).
pub fn classify_command(command: &str) -> (k: AliasKind)
    ensures
        k.view() == classify_spec(command@),
{
    let c = chars_of(command);
    if str_contains(command, "aws sso login") {
        let name = string_or_empty(find_flag_arg(&c, "--sso-session"));
        AliasKind::SsoLogin { session_name: name }
    } else if str_contains(command, "aws ssm start-session") {
        let target = string_or_empty(find_flag_arg(&c, "--target"));
        let document = opt_string(find_flag_arg(&c, "--document-name"));
        let mut local_port: Option<String> = None;
        let mut remote_port: Option<String> = None;
        let mut host: Option<String> = None;
        match find_flag_rest(&c, "--parameters") {
            Some(p) => {
                match parse_ssm_parameters(&p) {
                    Some(obj) => {
                        local_port = param_value(&obj, "localPortNumber");
                        remote_port = param_value(&obj, "portNumber");
                        host = param_value(&obj, "host");
                    },
                    None => {},
                }
            },
            None => {},
        }
        AliasKind::SsmSession { target, document, local_port, remote_port, host }
    } else {
        AliasKind::Other
    }
}


// ─── Alias and group lines ──────────────────────────────────────────────────
/// A character allowed in an alias name: `[a-zA-Z0-9_-]`.
pub open spec fn is_name_char(c: char) -> bool {
    ('a' <= c <= 'z') || ('A' <= c <= 'Z') || ('0' <= c <= '9') || c == '_' || c == '-'
}

/// End of the run of alias-name characters starting at `i`.
pub open spec fn name_end(s: Seq<char>, i: int) -> int
    decreases s.len() - i,
{
    if 0 <= i < s.len() && is_name_char(s[i]) {
        name_end(s, i + 1)
    } else {
        i
    }
}

/// The first position `j` at or after `j0` where a `'` ends the line (only
/// whitespace after it).
pub open spec fn closing_quote_from(s: Seq<char>, j: int) -> Option<int>
    decreases s.len() - j,
{
    if j < 0 || j >= s.len() {
        None
    } else if s[j] == '\'' && ws_end(s, j + 1) == s.len() {
        Some(j)
    } else {
        closing_quote_from(s, j + 1)
    }
}

/// The name and command of an alias line: the pattern
/// `^\s*alias\s+([a-zA-Z0-9_-]+)\s*=\s*'(.+?)'\s*$` on a line (no `\n`).
pub open spec fn alias_match(s: Seq<char>) -> Option<(Seq<char>, Seq<char>)> {
    let a = ws_end(s, 0);
    let b = a + 5;
    let c = ws_end(s, b);
    let d = name_end(s, c);
    let e = ws_end(s, d);
    let f = ws_end(s, e + 1);
    if occurs_at(s, "alias"@, a) && c > b && d > c && e < s.len() && s[e] == '=' && f < s.len()
        && s[f] == '\'' {
        match closing_quote_from(s, f + 2) {
            Some(j) => Some((s.subrange(c, d), s.subrange(f + 1, j))),
            None => None,
        }
    } else {
        None
    }
}

fn skip_name(s: &Vec<char>, i: usize) -> (r: usize)
    requires
        i <= s@.len(),
    ensures
        r == name_end(s@, i as int),
        i <= r <= s@.len(),
{
    let mut j = i;
    while j < s.len() && (('a' <= s[j] && s[j] <= 'z') || ('A' <= s[j] && s[j] <= 'Z') || ('0'
        <= s[j] && s[j] <= '9') || s[j] == '_' || s[j] == '-')
        invariant
            i <= j <= s@.len(),
            name_end(s@, i as int) == name_end(s@, j as int),
        decreases s@.len() - j,
    {
        j = j + 1;
    }
    j
}

/// Executable `alias_match`.
pub fn match_alias_line(s: &Vec<char>) -> (r: Option<(Vec<char>, Vec<char>)>)
    ensures
        match r {
            Some((n, c)) => alias_match(s@) == Some((n@, c@)),
            None => alias_match(s@) is None,
        },
{
    let n = s.len();
    let a = skip_ws(s, 0);
    let kw = chars_of("alias");
    proof {
        reveal_strlit("alias");
    }
    assert(kw@.len() == 5);
    if !matches_at(s, &kw, a) {
        return None;
    }
    assert(a + 5 <= s@.len());
    let b = a + 5;
    let c = skip_ws(s, b);
    if c == b {
        return None;
    }
    let d = skip_name(s, c);
    if d == c {
        return None;
    }
    let e = skip_ws(s, d);
    if e >= s.len() || s[e] != '=' {
        return None;
    }
    let f = skip_ws(s, e + 1);
    if f >= s.len() || s[f] != '\'' {
        return None;
    }
    if f + 1 >= n {
        return None;
    }
    assert(alias_match(s@) == (match closing_quote_from(s@, f + 2) {
        Some(jj) => Some((s@.subrange(c as int, d as int), s@.subrange(f + 1, jj))),
        None => None,
    }));
    let mut j = f + 2;
    while j < s.len()
        invariant
            f + 2 <= j,
            f < s@.len(),
            c <= d <= s@.len(),
            alias_match(s@) == (match closing_quote_from(s@, f + 2) {
                Some(jj) => Some((s@.subrange(c as int, d as int), s@.subrange(f + 1, jj))),
                None => None,
            }),
            closing_quote_from(s@, f + 2) == closing_quote_from(s@, j as int),
        decreases s@.len() - j,
    {
        if s[j] == '\'' && skip_ws(s, j + 1) == s.len() {
            let name = slice_vec(s, c, d);
            let cmd = slice_vec(s, f + 1, j);
            return Some((name, cmd));
        }
        j = j + 1;
    }
    None
}

/// The text after `# group:` where the comment starts at `p`: the pattern
/// `(?i)#\s*group:\s*(.+)` on a line (no `\n`).
pub open spec fn group_at(s: Seq<char>, p: int) -> Option<Seq<char>> {
    let q = ws_end(s, p + 1);
    let r = q + 6;
    let t = ws_end(s, r);
    if !(0 <= p < s.len() && s[p] == '#' && occurs_at_ci(s, "group:"@, q)) {
        None
    } else if t < s.len() {
        Some(s.subrange(t, s.len() as int))
    } else if t > r {
        Some(s.subrange(s.len() - 1, s.len() as int))
    } else {
        None
    }
}

/// The leftmost `# group:` match at or after `p`.
pub open spec fn group_from(s: Seq<char>, p: int) -> Option<Seq<char>>
    decreases s.len() - p,
{
    if p < 0 || p >= s.len() {
        None
    } else {
        match group_at(s, p) {
            Some(g) => Some(g),
            None => group_from(s, p + 1),
        }
    }
}

/// The position where a trailing `type: ...` annotation begins: the leftmost
/// match of `(?i)\s+type\s*:.*$` in `s`, searched from `p`.
pub open spec fn type_from(s: Seq<char>, p: int) -> Option<int>
    decreases s.len() - p,
{
    if p < 0 || p >= s.len() {
        None
    } else {
        let w = ws_end(s, p);
        let u = ws_end(s, w + 4);
        if is_ws(s[p]) && occurs_at_ci(s, "type"@, w) && u < s.len() && s[u] == ':' {
            Some(p)
        } else {
            type_from(s, p + 1)
        }
    }
}

/// The group name that a `# group:` capture sets: trimmed, with a trailing
/// `type: ...` annotation removed.
pub open spec fn group_name(cap: Seq<char>) -> Seq<char> {
    let raw = trim(cap);
    match type_from(raw, 0) {
        Some(p) => trim(raw.take(p)),
        None => trim(raw),
    }
}

/// Executable `group_from(s, 0)`.
pub fn match_group_line(s: &Vec<char>) -> (r: Option<Vec<char>>)
    ensures
        match r {
            Some(g) => group_from(s@, 0) == Some(g@),
            None => group_from(s@, 0) is None,
        },
{
    let kw = chars_of("group:");
    proof {
        reveal_strlit("group:");
    }
    let n = s.len();
    let mut p: usize = 0;
    while p < n
        invariant
            p <= s@.len(),
            n == s@.len(),
            kw@ == "group:"@,
            kw@.len() == 6,
            group_from(s@, 0) == group_from(s@, p as int),
        decreases s@.len() - p,
    {
        if s[p] == '#' {
            let q = skip_ws(s, p + 1);
            if matches_at_ci(s, &kw, q) {
                let r = q + 6;
                let t = skip_ws(s, r);
                if t < s.len() {
                    return Some(slice_vec(s, t, s.len()));
                } else if t > r {
                    return Some(slice_vec(s, s.len() - 1, s.len()));
                }
            }
        }
        p = p + 1;
    }
    None
}

/// Executable `group_name`.
pub fn group_name_of(cap: &Vec<char>) -> (r: Vec<char>)
    ensures
        r@ == group_name(cap@),
{
    let raw = trim_chars(cap);
    let kw = chars_of("type");
    proof {
        reveal_strlit("type");
    }
    let n = raw.len();
    let mut p: usize = 0;
    while p < n
        invariant
            p <= raw@.len(),
            n == raw@.len(),
            raw@ == trim(cap@),
            kw@ == "type"@,
            kw@.len() == 4,
            type_from(raw@, 0) == type_from(raw@, p as int),
        decreases raw@.len() - p,
    {
        if is_space(raw[p]) {
            let w = skip_ws(&raw, p);
            if matches_at_ci(&raw, &kw, w) {
                let u = skip_ws(&raw, w + 4);
                if u < raw.len() && raw[u] == ':' {
                    let head = slice_vec(&raw, 0, p);
                    assert(head@ =~= raw@.take(p as int));
                    return trim_chars(&head);
                }
            }
        }
        p = p + 1;
    }
    trim_chars(&raw)
}

// ─── The alias file ─────────────────────────────────────────────────────────
/// The aliases of the lines `ls`, the current group being `group`: blank
/// lines are skipped; a `# group:` line sets the group; other `#` lines are
/// comments; an alias line yields an alias in the current group; any other
/// line is ignored.
pub open spec fn parse_lines(ls: Seq<Seq<char>>, group: Seq<char>) -> Seq<AliasV>
    decreases ls.len(),
{
    if ls.len() == 0 {
        Seq::empty()
    } else {
        let line = trim(ls[0]);
        let rest = ls.drop_first();
        if line.len() == 0 {
            parse_lines(rest, group)
        } else {
            match group_from(line, 0) {
                Some(cap) => parse_lines(rest, group_name(cap)),
                None => {
                    if line[0] == '#' {
                        parse_lines(rest, group)
                    } else {
                        match alias_match(line) {
                            Some((n, c)) => seq![
                                AliasV { name: n, command: c, kind: classify_spec(c), group },
                            ] + parse_lines(rest, group),
                            None => parse_lines(rest, group),
                        }
                    }
                },
            }
        }
    }
}

/// The aliases of an alias file; aliases before any `# group:` line are in
/// the group `Other`.
pub open spec fn parse_aliases_spec(content: Seq<char>) -> Seq<AliasV> {
    parse_lines(lines_of(content), "Other"@)
}

/// Parses the text of an alias file (see `parse_aliases_spec`).
pub fn parse_aliases(content: &str) -> (r: Vec<Alias>)
    ensures
        aliases_view(r@) == parse_aliases_spec(content@),
{
    let cv = chars_of(content);
    let ls = split_lines(&cv);
    let ghost lsv = lines_of(content@);
    let mut aliases: Vec<Alias> = Vec::new();
    let mut current_group = str_to_string("Other");
    let mut i: usize = 0;
    assert(lsv.skip(0) =~= lsv);
    assert(aliases_view(aliases@) + parse_lines(lsv.skip(0), current_group@) =~= parse_lines(
        lsv,
        "Other"@,
    ));
    while i < ls.len()
        invariant
            i <= ls@.len() == lsv.len(),
            lsv == lines_of(content@),
            forall|k: int| 0 <= k < ls@.len() ==> (#[trigger] ls@[k])@ == lsv[k],
            aliases_view(aliases@) + parse_lines(lsv.skip(i as int), current_group@)
                == parse_aliases_spec(content@),
        decreases ls@.len() - i,
    {
        let ghost before = aliases_view(aliases@);
        let ghost rest = lsv.skip(i + 1);
        assert(lsv.skip(i as int).drop_first() =~= rest);
        assert(lsv.skip(i as int)[0] == lsv[i as int]);
        let line = trim_chars(&ls[i]);
        if line.len() == 0 {
        } else {
            match match_group_line(&line) {
                Some(cap) => {
                    let g = group_name_of(&cap);
                    current_group = string_of(&g);
                },
                None => {
                    if line[0] == '#' {
                    } else {
                        match match_alias_line(&line) {
                            Some((n, c)) => {
                                let command = string_of(&c);
                                let kind = classify_command(command.as_str());
                                let a = Alias {
                                    name: string_of(&n),
                                    command,
                                    kind,
                                    group: current_group.clone(),
                                };
                                aliases.push(a);
                                assert(aliases_view(aliases@) =~= before.push(a.view()));
                                assert(aliases_view(aliases@) + parse_lines(rest, current_group@)
                                    =~= before + (seq![a.view()] + parse_lines(
                                    rest,
                                    current_group@,
                                )));
                            },
                            None => {},
                        }
                    }
                },
            }
        }
        i = i + 1;
    }
    assert(lsv.skip(i as int) =~= Seq::<Seq<char>>::empty());
    assert(aliases_view(aliases@) + Seq::<AliasV>::empty() =~= aliases_view(aliases@));
    aliases
}


// ─── Which alias file ───────────────────────────────────────────────────────
/// The files looked for, in order, where neither an argument nor
/// `AWS_TUI_ALIASES` names one: four in the home directory `home`, then
/// `sample_aliases` in the working directory.
pub open spec fn alias_file_candidates_of(home: Seq<char>) -> Seq<Seq<char>> {
    seq![
        joined(home, ".zsh_aliases"@),
        joined(home, ".profile.d/aws.plugin.zsh"@),
        joined(home, ".aws_aliases"@),
        joined(home, ".bash_aliases"@),
        "sample_aliases"@,
    ]
}

/// Writes `alias_file_candidates_of`.
pub fn alias_file_candidates(home: &str) -> (r: Vec<String>)
    ensures
        r@.len() == 5,
        forall|k: int| 0 <= k < 5 ==> (#[trigger] r@[k])@ == alias_file_candidates_of(home@)[k],
{
    let mut r: Vec<String> = Vec::new();
    r.push(join_path(home, ".zsh_aliases"));
    r.push(join_path(home, ".profile.d/aws.plugin.zsh"));
    r.push(join_path(home, ".aws_aliases"));
    r.push(join_path(home, ".bash_aliases"));
    r.push(str_to_string("sample_aliases"));
    r
}

/// The alias file used: the program's argument if given, else
/// `AWS_TUI_ALIASES` if set, else the first candidate that exists (`exists`
/// says which, in the order of `alias_file_candidates_of`), else
/// `.zsh_aliases` in the home directory.
pub open spec fn alias_file_of(arg: Option<Seq<char>>, env: Option<Seq<char>>, home: Seq<char>, exists: Seq<bool>) -> Seq<char> {
    match arg {
        Some(a) => a,
        None => match env {
            Some(e) => e,
            None => match first_flagged(exists, 5, 0) {
                Some(k) => alias_file_candidates_of(home)[k],
                None => joined(home, ".zsh_aliases"@),
            },
        },
    }
}

/// Writes `alias_file_of`.
pub fn choose_alias_file(arg: Option<String>, env: Option<String>, home: &str, exists: &Vec<bool>) -> (r: String)
    ensures
        r@ == alias_file_of(opt_view(arg), opt_view(env), home@, exists@),
{
    match arg {
        Some(a) => a,
        None => match env {
            Some(e) => e,
            None => {
                let c = alias_file_candidates(home);
                assert(c@.len() == 5);
                let found = first_flagged_of(&c, exists);
                proof {
                    lemma_first_flagged(exists@, 5, 0);
                    if let Some(k) = first_flagged(exists@, 5, 0) {
                        assert(c@[k]@ == alias_file_candidates_of(home@)[k]);
                    }
                }
                match found {
                    Some(p) => p,
                    None => join_path(home, ".zsh_aliases"),
                }
            },
        },
    }
}

} // verus!
