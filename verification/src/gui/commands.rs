//! What the desktop front end's commands hand the AWS CLI and what they make
//! of its answers: instances, ECS clusters, services, tasks and containers,
//! listed page by page.
use vstd::prelude::*;
use crate::json::{
    Json, JsonV, json_view, json_parse, json_parse_error, parse_json, jget, jstr, ju64, jfield_str,
    member, as_str, as_u64, array_items, field_str, field_str_or, jarr_or_empty, strs_view,
};
use crate::text::{
    str_to_string, concat, trim, trim_chars, chars_of, string_of, lines_of, split_lines,
    last_segment, after_last_slash, starts_with, str_eq, matches_at,
};
use crate::parser::opt_view;
use crate::gui::model::{Instance, Cluster, Service, Task, Container};
use crate::json::{string_items, str_items, jidx};
use crate::cli_output::{text_of, or_text};

verus! {

// ─── Running the CLI ────────────────────────────────────────────────────────
/// The arguments of an AWS CLI call: the command's own, then the profile and
/// region where given, then JSON output.
pub open spec fn aws_arg_list(args: Seq<Seq<char>>, profile: Option<Seq<char>>, region: Option<Seq<char>>) -> Seq<Seq<char>> {
    args + (match profile {
        Some(p) => seq!["--profile"@, p],
        None => Seq::empty(),
    }) + (match region {
        Some(r) => seq!["--region"@, r],
        None => Seq::empty(),
    }) + seq!["--output"@, "json"@]
}

fn push_s(v: &mut Vec<String>, s: &str)
    ensures
        strs_view(final(v)@) == strs_view(old(v)@).push(s@),
{
    let ghost before = strs_view(v@);
    v.push(str_to_string(s));
    assert(strs_view(v@) =~= before.push(s@));
}

fn push_owned(v: &mut Vec<String>, s: String)
    ensures
        strs_view(final(v)@) == strs_view(old(v)@).push(s@),
{
    let ghost before = strs_view(v@);
    let ghost sv = s@;
    v.push(s);
    assert(strs_view(v@) =~= before.push(sv));
}

/// The arguments of an AWS CLI call (see `aws_arg_list`).
pub fn aws_args(args: Vec<String>, profile: &Option<String>, region: &Option<String>) -> (r: Vec<String>)
    ensures
        strs_view(r@) == aws_arg_list(strs_view(args@), opt_view(*profile), opt_view(*region)),
{
    let mut r = args;
    let ghost a = strs_view(r@);
    match profile {
        Some(p) => {
            push_s(&mut r, "--profile");
            push_owned(&mut r, p.clone());
        },
        None => {},
    }
    let ghost b = strs_view(r@);
    assert(b =~= a + (match opt_view(*profile) {
        Some(p) => seq!["--profile"@, p],
        None => Seq::<Seq<char>>::empty(),
    }));
    match region {
        Some(x) => {
            push_s(&mut r, "--region");
            push_owned(&mut r, x.clone());
        },
        None => {},
    }
    let ghost c = strs_view(r@);
    assert(c =~= b + (match opt_view(*region) {
        Some(x) => seq!["--region"@, x],
        None => Seq::<Seq<char>>::empty(),
    }));
    push_s(&mut r, "--output");
    push_s(&mut r, "json");
    assert(strs_view(r@) =~= c + seq!["--output"@, "json"@]);
    r
}

/// What a finished AWS CLI call gives: its trimmed error output on failure,
/// else its output read as JSON, or the parser's message where it is not
/// JSON.
pub open spec fn aws_outcome(success: bool, stdout: Seq<char>, stderr: Seq<char>) -> Result<JsonV, Seq<char>> {
    if !success {
        Err(trim(stderr))
    } else {
        match json_parse(stdout) {
            Some(v) => Ok(v),
            None => Err(json_parse_error(stdout)),
        }
    }
}

/// Interprets a finished AWS CLI call (see `aws_outcome`).
pub fn aws_result(success: bool, stdout: &str, stderr: &str) -> (r: Result<Json, String>)
    ensures
        match (r, aws_outcome(success, stdout@, stderr@)) {
            (Ok(j), Ok(v)) => json_view(j) == v,
            (Err(e), Err(m)) => e@ == m,
            _ => false,
        },
{
    if !success {
        return Err(string_of(&trim_chars(&chars_of(stderr))));
    }
    parse_json(stdout)
}

/// The error when the AWS CLI could not be run.
pub fn aws_spawn_error(err: &str) -> (r: String)
    ensures
        r@ == "aws cli: "@ + err@,
{
    concat("aws cli: ", err)
}

// ─── EC2 ────────────────────────────────────────────────────────────────────
/// The arguments that list instances in any state but terminated.
pub fn list_instances_args() -> (r: Vec<String>)
    ensures
        strs_view(r@) == seq![
            "ec2"@,
            "describe-instances"@,
            "--filters"@,
            "Name=instance-state-name,Values=running,stopped,stopping,pending"@,
        ],
{
    let mut r: Vec<String> = Vec::new();
    push_s(&mut r, "ec2");
    push_s(&mut r, "describe-instances");
    push_s(&mut r, "--filters");
    push_s(&mut r, "Name=instance-state-name,Values=running,stopped,stopping,pending");
    r
}

/// The key and value of a tag, where both are strings.
pub open spec fn tag_pair(t: JsonV) -> Option<(Seq<char>, Seq<char>)> {
    match (jfield_str(t, "Key"@), jfield_str(t, "Value"@)) {
        (Some(k), Some(v)) => Some((k, v)),
        _ => None,
    }
}

/// The position of key `k` in `m`.
pub open spec fn key_pos(m: Seq<(Seq<char>, Seq<char>)>, k: Seq<char>) -> Option<int>
    decreases m.len(),
{
    if m.len() == 0 {
        None
    } else if m.last().0 == k {
        Some(m.len() - 1)
    } else {
        key_pos(m.drop_last(), k)
    }
}

/// `m` with `k` set to `v`: in its place where present, else at the end.
pub open spec fn map_set(m: Seq<(Seq<char>, Seq<char>)>, k: Seq<char>, v: Seq<char>) -> Seq<(Seq<char>, Seq<char>)> {
    match key_pos(m, k) {
        Some(i) => m.update(i, (k, v)),
        None => m.push((k, v)),
    }
}

/// The tags of the first `n` tag entries: each key once, in the order first
/// seen, with the last value given for it.
pub open spec fn tag_map(tags: Seq<JsonV>, n: int) -> Seq<(Seq<char>, Seq<char>)>
    decreases n,
{
    if n <= 0 {
        Seq::empty()
    } else {
        let m = tag_map(tags, n - 1);
        match tag_pair(tags[n - 1]) {
            Some((k, v)) => map_set(m, k, v),
            None => m,
        }
    }
}

/// The value of key `k` in `m`.
pub open spec fn map_get(m: Seq<(Seq<char>, Seq<char>)>, k: Seq<char>) -> Option<Seq<char>> {
    match key_pos(m, k) {
        Some(i) => Some(m[i].1),
        None => None,
    }
}

/// The elements of an optional array member (`get(k).and_then(as_array)`),
/// none where it is missing or not an array.
pub open spec fn items_or_none(j: JsonV, k: Seq<char>) -> Seq<JsonV> {
    match jget(j, k) {
        Some(JsonV::Array(a)) => a,
        _ => Seq::empty(),
    }
}

/// A string member of a member (`get(a).and_then(get(b)).and_then(as_str)`).
pub open spec fn nested_str(j: JsonV, a: Seq<char>, b: Seq<char>) -> Option<Seq<char>> {
    match jget(j, a) {
        Some(x) => jfield_str(x, b),
        None => None,
    }
}

/// `x` is the instance that entry `inst` describes.
pub open spec fn instance_of(x: Instance, inst: JsonV) -> bool {
    let tags = tag_map(items_or_none(inst, "Tags"@), items_or_none(inst, "Tags"@).len() as int);
    &&& x.id@ == crate::cli_output::text_of(inst, "InstanceId"@, ""@)
    &&& opt_view(x.name) == map_get(tags, "Name"@)
    &&& x.state@ == crate::cli_output::or_text(nested_str(inst, "State"@, "Name"@), "unknown"@)
    &&& x.instance_type@ == crate::cli_output::text_of(inst, "InstanceType"@, ""@)
    &&& opt_view(x.private_ip) == jfield_str(inst, "PrivateIpAddress"@)
    &&& opt_view(x.public_ip) == jfield_str(inst, "PublicIpAddress"@)
    &&& opt_view(x.az) == nested_str(inst, "Placement"@, "AvailabilityZone"@)
    &&& opt_view(x.vpc_id) == jfield_str(inst, "VpcId"@)
    &&& Seq::new(x.tags@.len(), |i: int| (x.tags@[i].0@, x.tags@[i].1@)) == tags
}

/// The instance entries of a `describe-instances` answer, reservation by
/// reservation.
pub open spec fn instance_entries(res: Seq<JsonV>, n: int) -> Seq<JsonV>
    decreases n,
{
    if n <= 0 {
        Seq::empty()
    } else {
        instance_entries(res, n - 1) + items_or_none(res[n - 1], "Instances"@)
    }
}

/// All instance entries of an answer.
pub open spec fn all_instance_entries(v: JsonV) -> Seq<JsonV> {
    let res = items_or_none(v, "Reservations"@);
    instance_entries(res, res.len() as int)
}


/// The elements of an optional array member, as a slice.
pub fn items_field<'a>(j: &'a Json, k: &str) -> (r: &'a [Json])
    ensures
        r@.len() == items_or_none(json_view(*j), k@).len(),
        forall|t: int|
            0 <= t < r@.len() ==> items_or_none(json_view(*j), k@)[t] == #[trigger] json_view(r@[t]),
{
    match member(j, k) {
        Some(v) => match v {
            Json::Array(a) => {
                assert(json_view(*v) is Array);
                a.as_slice()
            },
            _ => &[],
        },
        None => &[],
    }
}

fn nested_str_exec(j: &Json, a: &str, b: &str) -> (r: Option<String>)
    ensures
        opt_view(r) == nested_str(json_view(*j), a@, b@),
{
    match member(j, a) {
        Some(x) => field_str(x, b),
        None => None,
    }
}

fn opt_field(j: &Json, k: &str) -> (r: Option<String>)
    ensures
        opt_view(r) == jfield_str(json_view(*j), k@),
{
    field_str(j, k)
}

/// The view of a list of string pairs.
pub open spec fn pairs_view(v: Seq<(String, String)>) -> Seq<(Seq<char>, Seq<char>)> {
    Seq::new(v.len(), |i: int| (v[i].0@, v[i].1@))
}

fn tag_set(m: &mut Vec<(String, String)>, k: String, v: String)
    ensures
        pairs_view(final(m)@) == map_set(pairs_view(old(m)@), k@, v@),
{
    let ghost pv = pairs_view(m@);
    let mut j = m.len();
    assert(pv.take(j as int) =~= pv);
    while j > 0
        invariant
            j <= m@.len(),
            pv == pairs_view(m@),
            pv == pairs_view(old(m)@),
            m@ == old(m)@,
            key_pos(pv, k@) == key_pos(pv.take(j as int), k@),
        decreases j,
    {
        assert(pv.take(j as int).drop_last() =~= pv.take(j - 1));
        if str_eq(m[j - 1].0.as_str(), k.as_str()) {
            let ghost kv = k@;
            let ghost vv = v@;
            assert(pv.take(j as int).last() == pv[j - 1]);
            assert(key_pos(pv, k@) == Some(j - 1));
            m.set(j - 1, (k, v));
            assert(pairs_view(m@) =~= pv.update(j - 1, (kv, vv)));
            return ;
        }
        j = j - 1;
    }
    let ghost kv = k@;
    let ghost vv = v@;
    m.push((k, v));
    assert(pairs_view(m@) =~= pv.push((kv, vv)));
}

fn tags_of(inst: &Json) -> (r: Vec<(String, String)>)
    ensures
        pairs_view(r@) == tag_map(
            items_or_none(json_view(*inst), "Tags"@),
            items_or_none(json_view(*inst), "Tags"@).len() as int,
        ),
{
    let arr = items_field(inst, "Tags");
    let ghost a = items_or_none(json_view(*inst), "Tags"@);
    let mut m: Vec<(String, String)> = Vec::new();
    let mut i: usize = 0;
    assert(pairs_view(m@) =~= Seq::<(Seq<char>, Seq<char>)>::empty());
    while i < arr.len()
        invariant
            i <= arr@.len() == a.len(),
            forall|t: int| 0 <= t < arr@.len() ==> a[t] == #[trigger] json_view(arr@[t]),
            pairs_view(m@) == tag_map(a, i as int),
        decreases arr@.len() - i,
    {
        let t = &arr[i];
        match (field_str(t, "Key"), field_str(t, "Value")) {
            (Some(k), Some(v)) => {
                tag_set(&mut m, k, v);
            },
            _ => {},
        }
        i = i + 1;
    }
    m
}

fn map_lookup(m: &Vec<(String, String)>, k: &str) -> (r: Option<String>)
    ensures
        opt_view(r) == map_get(pairs_view(m@), k@),
{
    let ghost pv = pairs_view(m@);
    let mut j = m.len();
    assert(pv.take(j as int) =~= pv);
    while j > 0
        invariant
            j <= m@.len(),
            pv == pairs_view(m@),
            key_pos(pv, k@) == key_pos(pv.take(j as int), k@),
        decreases j,
    {
        assert(pv.take(j as int).drop_last() =~= pv.take(j - 1));
        if str_eq(m[j - 1].0.as_str(), k) {
            return Some(m[j - 1].1.clone());
        }
        j = j - 1;
    }
    None
}

fn instance_from(inst: &Json) -> (r: Instance)
    ensures
        instance_of(r, json_view(*inst)),
{
    let tags = tags_of(inst);
    let name = map_lookup(&tags, "Name");
    let state = match nested_str_exec(inst, "State", "Name") {
        Some(s) => s,
        None => str_to_string("unknown"),
    };
    Instance {
        id: field_str_or(inst, "InstanceId", ""),
        name,
        state,
        instance_type: field_str_or(inst, "InstanceType", ""),
        private_ip: opt_field(inst, "PrivateIpAddress"),
        public_ip: opt_field(inst, "PublicIpAddress"),
        az: nested_str_exec(inst, "Placement", "AvailabilityZone"),
        vpc_id: opt_field(inst, "VpcId"),
        tags,
    }
}

/// The instances of a `describe-instances` answer, reservation by
/// reservation (see `instance_of`).
pub fn instances_from(json: &Json) -> (r: Vec<Instance>)
    ensures
        r@.len() == all_instance_entries(json_view(*json)).len(),
        forall|i: int|
            0 <= i < r@.len() ==> instance_of(#[trigger] r@[i], all_instance_entries(json_view(*json))[i]),
{
    let res = items_field(json, "Reservations");
    let ghost rv = items_or_none(json_view(*json), "Reservations"@);
    let mut out: Vec<Instance> = Vec::new();
    let mut i: usize = 0;
    while i < res.len()
        invariant
            i <= res@.len() == rv.len(),
            forall|t: int| 0 <= t < res@.len() ==> rv[t] == #[trigger] json_view(res@[t]),
            out@.len() == instance_entries(rv, i as int).len(),
            forall|k: int|
                0 <= k < out@.len() ==> instance_of(#[trigger] out@[k], instance_entries(rv, i as int)[k]),
        decreases res@.len() - i,
    {
        let insts = items_field(&res[i], "Instances");
        let ghost prev = instance_entries(rv, i as int);
        let ghost here = items_or_none(rv[i as int], "Instances"@);
        assert(instance_entries(rv, i + 1) == prev + here);
        let mut k: usize = 0;
        while k < insts.len()
            invariant
                k <= insts@.len() == here.len(),
                forall|t: int| 0 <= t < insts@.len() ==> here[t] == #[trigger] json_view(insts@[t]),
                out@.len() == prev.len() + k,
                forall|t: int|
                    0 <= t < out@.len() ==> instance_of(#[trigger] out@[t], (prev + here)[t]),
            decreases insts@.len() - k,
        {
            out.push(instance_from(&insts[k]));
            k = k + 1;
        }
        i = i + 1;
    }
    out
}

/// The instance a `describe-instances` answer describes first, or the whole
/// answer where it has none.
pub open spec fn first_described(v: JsonV) -> JsonV {
    let res = items_or_none(v, "Reservations"@);
    if res.len() > 0 && items_or_none(res[0], "Instances"@).len() > 0 {
        items_or_none(res[0], "Instances"@)[0]
    } else {
        v
    }
}

fn take_member(j: Json, k: &str) -> (r: Json)
    requires
        jget(json_view(j), k@) is Some,
    ensures
        jget(json_view(j), k@) == Some(json_view(r)),
{
    let ghost jv = json_view(j);
    match j {
        Json::Object(mut m) => {
            let ghost mv = jv->Object_0;
            let mut i: usize = 0;
            while i < m.len()
                invariant
                    i <= m@.len() == mv.len(),
                    jv == json_view(Json::Object(m)),
                    jv == json_view(j),
                    mv == jv->Object_0,
                    crate::json::jget_in(mv, k@, 0) == crate::json::jget_in(mv, k@, i as int),
                    crate::json::jget_in(mv, k@, 0) is Some,
                    forall|t: int|
                        0 <= t < m@.len() ==> #[trigger] mv[t] == (m@[t].0@, json_view(m@[t].1)),
                decreases m@.len() - i,
            {
                assert(mv[i as int] == (m@[i as int].0@, json_view(m@[i as int].1)));
                if str_eq(m[i].0.as_str(), k) {
                    assert(jget(jv, k@) == crate::json::jget_in(mv, k@, 0));
                    assert(crate::json::jget_in(mv, k@, i as int) == Some(mv[i as int].1));
                    let ghost want = json_view(m@[i as int].1);
                    let (_, v) = m.remove(i);
                    assert(json_view(v) == want);
                    assert(want == mv[i as int].1);
                    assert(jget(jv, k@) == Some(json_view(v)));
                    return v;
                }
                i = i + 1;
            }
            Json::Null
        },
        _ => Json::Null,
    }
}

fn take_first(j: Json) -> (r: Json)
    requires
        json_view(j) is Array,
        json_view(j)->Array_0.len() > 0,
    ensures
        json_view(r) == json_view(j)->Array_0[0],
{
    match j {
        Json::Array(mut a) => {
            assert(json_view(Json::Array(a))->Array_0[0] == json_view(a@[0]));
            a.remove(0)
        },
        _ => Json::Null,
    }
}

/// Picks the first instance of a `describe-instances` answer (see
/// `first_described`).
pub fn first_instance_or_all(json: Json) -> (r: Json)
    ensures
        json_view(r) == first_described(json_view(json)),
{
    let ghost v = json_view(json);
    let found = {
        let res = items_field(&json, "Reservations");
        res.len() > 0 && items_field(&res[0], "Instances").len() > 0
    };
    if !found {
        return json;
    }
    let res = take_member(json, "Reservations");
    let r0 = take_first(res);
    let insts = take_member(r0, "Instances");
    take_first(insts)
}


// ─── Argument lists ─────────────────────────────────────────────────────────
/// `--next-token TOKEN` where a token is given.
pub open spec fn token_args(t: Option<Seq<char>>) -> Seq<Seq<char>> {
    match t {
        Some(tok) => seq!["--next-token"@, tok],
        None => Seq::empty(),
    }
}

fn push_token(r: &mut Vec<String>, next_token: &Option<String>)
    ensures
        strs_view(final(r)@) == strs_view(old(r)@) + token_args(opt_view(*next_token)),
{
    let ghost before = strs_view(r@);
    match next_token {
        Some(t) => {
            push_s(r, "--next-token");
            push_owned(r, t.clone());
        },
        None => {},
    }
    assert(strs_view(r@) =~= before + token_args(opt_view(*next_token)));
}

fn push_all(r: &mut Vec<String>, items: &Vec<String>)
    ensures
        strs_view(final(r)@) == strs_view(old(r)@) + strs_view(items@),
{
    let ghost before = strs_view(r@);
    let mut i: usize = 0;
    while i < items.len()
        invariant
            i <= items@.len(),
            strs_view(r@) == before + strs_view(items@).take(i as int),
        decreases items@.len() - i,
    {
        push_owned(r, items[i].clone());
        assert(strs_view(items@).take(i + 1) =~= strs_view(items@).take(i as int).push(items@[i as int]@));
        i = i + 1;
    }
    assert(strs_view(items@).take(i as int) =~= strs_view(items@));
}

/// The arguments that list a page of ECS clusters.
pub fn list_clusters_args(next_token: &Option<String>) -> (r: Vec<String>)
    ensures
        strs_view(r@) == seq!["ecs"@, "list-clusters"@, "--max-results"@, "100"@] + token_args(
            opt_view(*next_token),
        ),
{
    let mut r: Vec<String> = Vec::new();
    push_s(&mut r, "ecs");
    push_s(&mut r, "list-clusters");
    push_s(&mut r, "--max-results");
    push_s(&mut r, "100");
    push_token(&mut r, next_token);
    r
}

/// The arguments that describe a batch of ECS clusters.
pub fn describe_clusters_args(chunk: &Vec<String>) -> (r: Vec<String>)
    ensures
        strs_view(r@) == seq!["ecs"@, "describe-clusters"@, "--clusters"@] + strs_view(chunk@),
{
    let mut r: Vec<String> = Vec::new();
    push_s(&mut r, "ecs");
    push_s(&mut r, "describe-clusters");
    push_s(&mut r, "--clusters");
    push_all(&mut r, chunk);
    r
}

/// The arguments that list a page of the services of `cluster`.
pub fn list_services_args(cluster: &String, next_token: &Option<String>) -> (r: Vec<String>)
    ensures
        strs_view(r@) == seq![
            "ecs"@,
            "list-services"@,
            "--cluster"@,
            cluster@,
            "--max-results"@,
            "100"@,
        ] + token_args(opt_view(*next_token)),
{
    let mut r: Vec<String> = Vec::new();
    push_s(&mut r, "ecs");
    push_s(&mut r, "list-services");
    push_s(&mut r, "--cluster");
    push_owned(&mut r, cluster.clone());
    push_s(&mut r, "--max-results");
    push_s(&mut r, "100");
    push_token(&mut r, next_token);
    r
}

/// The arguments that describe a batch of services of `cluster`.
pub fn describe_services_args(cluster: &String, chunk: &Vec<String>) -> (r: Vec<String>)
    ensures
        strs_view(r@) == seq!["ecs"@, "describe-services"@, "--cluster"@, cluster@, "--services"@]
            + strs_view(chunk@),
{
    let mut r: Vec<String> = Vec::new();
    push_s(&mut r, "ecs");
    push_s(&mut r, "describe-services");
    push_s(&mut r, "--cluster");
    push_owned(&mut r, cluster.clone());
    push_s(&mut r, "--services");
    push_all(&mut r, chunk);
    r
}

/// The arguments that list a page of the tasks of `cluster` (of one service
/// where given).
pub fn list_tasks_args(cluster: &String, service: &Option<String>, next_token: &Option<String>) -> (r: Vec<String>)
    ensures
        strs_view(r@) == seq![
            "ecs"@,
            "list-tasks"@,
            "--cluster"@,
            cluster@,
            "--max-results"@,
            "100"@,
        ] + (match opt_view(*service) {
            Some(s) => seq!["--service-name"@, s],
            None => Seq::empty(),
        }) + token_args(opt_view(*next_token)),
{
    let mut r: Vec<String> = Vec::new();
    push_s(&mut r, "ecs");
    push_s(&mut r, "list-tasks");
    push_s(&mut r, "--cluster");
    push_owned(&mut r, cluster.clone());
    push_s(&mut r, "--max-results");
    push_s(&mut r, "100");
    let ghost a = strs_view(r@);
    match service {
        Some(s) => {
            push_s(&mut r, "--service-name");
            push_owned(&mut r, s.clone());
        },
        None => {},
    }
    assert(strs_view(r@) =~= a + (match opt_view(*service) {
        Some(s) => seq!["--service-name"@, s],
        None => Seq::<Seq<char>>::empty(),
    }));
    push_token(&mut r, next_token);
    r
}

/// The arguments that describe a batch of tasks of `cluster`.
pub fn describe_tasks_args(cluster: &String, chunk: &Vec<String>) -> (r: Vec<String>)
    ensures
        strs_view(r@) == seq!["ecs"@, "describe-tasks"@, "--cluster"@, cluster@, "--tasks"@]
            + strs_view(chunk@),
{
    let mut r: Vec<String> = Vec::new();
    push_s(&mut r, "ecs");
    push_s(&mut r, "describe-tasks");
    push_s(&mut r, "--cluster");
    push_owned(&mut r, cluster.clone());
    push_s(&mut r, "--tasks");
    push_all(&mut r, chunk);
    r
}

/// The arguments that describe one instance.
pub fn describe_instance_args(id: &String) -> (r: Vec<String>)
    ensures
        strs_view(r@) == seq!["ec2"@, "describe-instances"@, "--instance-ids"@, id@],
{
    let mut r: Vec<String> = Vec::new();
    push_s(&mut r, "ec2");
    push_s(&mut r, "describe-instances");
    push_s(&mut r, "--instance-ids");
    push_owned(&mut r, id.clone());
    r
}

/// The arguments that ask who the credentials belong to.
pub fn whoami_args() -> (r: Vec<String>)
    ensures
        strs_view(r@) == seq!["sts"@, "get-caller-identity"@],
{
    let mut r: Vec<String> = Vec::new();
    push_s(&mut r, "sts");
    push_s(&mut r, "get-caller-identity");
    r
}

// ─── Pages of names ─────────────────────────────────────────────────────────
/// The names a page of a `list-*` answer gives under key `k`, and the token
/// of the next page, if any.
pub fn list_page(page: &Json, k: &str) -> (r: (Vec<String>, Option<String>))
    ensures
        strs_view(r.0@) == str_items(jarr_or_empty(jidx(json_view(*page), k@))),
        opt_view(r.1) == jfield_str(json_view(*page), "nextToken"@),
{
    (string_items(page, k), field_str(page, "nextToken"))
}

// ─── ECS records ────────────────────────────────────────────────────────────
/// A number member as `u64`, or 0 (`as_u64().unwrap_or(0)`).
pub open spec fn u64_of(j: JsonV, k: Seq<char>) -> u64 {
    match jget(j, k) {
        Some(v) => match ju64(v) {
            Some(n) => n,
            None => 0,
        },
        None => 0,
    }
}

fn u64_member(j: &Json, k: &str) -> (r: u64)
    ensures
        r == u64_of(json_view(*j), k@),
{
    match member(j, k) {
        Some(v) => match as_u64(v) {
            Some(n) => n,
            None => 0,
        },
        None => 0,
    }
}

/// `x` is the cluster that description `c` describes (counts cut to 32 bits).
pub open spec fn gui_cluster_of(x: Cluster, c: JsonV) -> bool {
    &&& x.name@ == text_of(c, "clusterName"@, ""@)
    &&& x.arn@ == text_of(c, "clusterArn"@, ""@)
    &&& x.status@ == text_of(c, "status"@, ""@)
    &&& x.running_tasks == u64_of(c, "runningTasksCount"@) as u32
    &&& x.services_count == u64_of(c, "activeServicesCount"@) as u32
}

/// The clusters of a `describe-clusters` answer.
pub fn clusters_from(json: &Json) -> (r: Vec<Cluster>)
    ensures
        r@.len() == items_or_none(json_view(*json), "clusters"@).len(),
        forall|i: int|
            0 <= i < r@.len() ==> gui_cluster_of(#[trigger] r@[i], items_or_none(json_view(*json), "clusters"@)[i]),
{
    let arr = items_field(json, "clusters");
    let mut r: Vec<Cluster> = Vec::new();
    let mut i: usize = 0;
    while i < arr.len()
        invariant
            i <= arr@.len(),
            r@.len() == i,
            forall|k: int| 0 <= k < i ==> gui_cluster_of(#[trigger] r@[k], json_view(arr@[k])),
        decreases arr@.len() - i,
    {
        let c = &arr[i];
        r.push(
            Cluster {
                name: field_str_or(c, "clusterName", ""),
                arn: field_str_or(c, "clusterArn", ""),
                status: field_str_or(c, "status", ""),
                running_tasks: #[verifier::truncate] (u64_member(c, "runningTasksCount") as u32),
                services_count: #[verifier::truncate] (u64_member(c, "activeServicesCount") as u32),
            },
        );
        i = i + 1;
    }
    r
}

/// `x` is the service of `cluster` that description `s` describes; without a
/// name, the last part of its ARN names it.
pub open spec fn gui_service_of(x: Service, s: JsonV, cluster: Seq<char>) -> bool {
    let arn = text_of(s, "serviceArn"@, ""@);
    &&& x.arn@ == arn
    &&& x.name@ == or_text(jfield_str(s, "serviceName"@), last_segment(arn))
    &&& x.cluster@ == cluster
    &&& x.status@ == text_of(s, "status"@, ""@)
    &&& x.desired == u64_of(s, "desiredCount"@) as u32
    &&& x.running == u64_of(s, "runningCount"@) as u32
}

/// The services of a `describe-services` answer for `cluster`.
pub fn services_from(json: &Json, cluster: &String) -> (r: Vec<Service>)
    ensures
        r@.len() == items_or_none(json_view(*json), "services"@).len(),
        forall|i: int|
            0 <= i < r@.len() ==> gui_service_of(
                #[trigger] r@[i],
                items_or_none(json_view(*json), "services"@)[i],
                cluster@,
            ),
{
    let arr = items_field(json, "services");
    let mut r: Vec<Service> = Vec::new();
    let mut i: usize = 0;
    while i < arr.len()
        invariant
            i <= arr@.len(),
            r@.len() == i,
            forall|k: int| 0 <= k < i ==> gui_service_of(#[trigger] r@[k], json_view(arr@[k]), cluster@),
        decreases arr@.len() - i,
    {
        let s = &arr[i];
        let arn = field_str_or(s, "serviceArn", "");
        let name = match field_str(s, "serviceName") {
            Some(n) => n,
            None => after_last_slash(arn.as_str()),
        };
        r.push(
            Service {
                name,
                arn,
                cluster: cluster.clone(),
                status: field_str_or(s, "status", ""),
                desired: #[verifier::truncate] (u64_member(s, "desiredCount") as u32),
                running: #[verifier::truncate] (u64_member(s, "runningCount") as u32),
            },
        );
        i = i + 1;
    }
    r
}

/// The service a task's `group` names: the text after `service:`.
pub open spec fn group_service(g: Option<Seq<char>>) -> Option<Seq<char>> {
    match g {
        Some(s) => if starts_with(s, "service:"@) {
            Some(s.skip(8))
        } else {
            None
        },
        None => None,
    }
}

/// `x` is the task of `cluster` that description `t` describes.
pub open spec fn gui_task_of(x: Task, t: JsonV, cluster: Seq<char>) -> bool {
    &&& x.arn@ == text_of(t, "taskArn"@, ""@)
    &&& x.cluster@ == cluster
    &&& opt_view(x.service) == group_service(jfield_str(t, "group"@))
    &&& x.last_status@ == text_of(t, "lastStatus"@, ""@)
    &&& x.desired_status@ == text_of(t, "desiredStatus"@, ""@)
    &&& x.launch_type@ == text_of(t, "launchType"@, "EC2"@)
}

fn group_service_exec(g: Option<String>) -> (r: Option<String>)
    ensures
        opt_view(r) == group_service(opt_view(g)),
{
    match g {
        Some(s) => {
            let v = chars_of(s.as_str());
            let p = chars_of("service:");
            proof {
                reveal_strlit("service:");
            }
            if p.len() <= v.len() && matches_at(&v, &p, 0) {
                let rest = crate::text::slice_vec(&v, 8, v.len());
                assert(rest@ =~= s@.skip(8));
                Some(string_of(&rest))
            } else {
                None
            }
        },
        None => None,
    }
}

/// The tasks of a `describe-tasks` answer for `cluster`.
pub fn tasks_from(json: &Json, cluster: &String) -> (r: Vec<Task>)
    ensures
        r@.len() == items_or_none(json_view(*json), "tasks"@).len(),
        forall|i: int|
            0 <= i < r@.len() ==> gui_task_of(
                #[trigger] r@[i],
                items_or_none(json_view(*json), "tasks"@)[i],
                cluster@,
            ),
{
    let arr = items_field(json, "tasks");
    let mut r: Vec<Task> = Vec::new();
    let mut i: usize = 0;
    while i < arr.len()
        invariant
            i <= arr@.len(),
            r@.len() == i,
            forall|k: int| 0 <= k < i ==> gui_task_of(#[trigger] r@[k], json_view(arr@[k]), cluster@),
        decreases arr@.len() - i,
    {
        let t = &arr[i];
        r.push(
            Task {
                arn: field_str_or(t, "taskArn", ""),
                cluster: cluster.clone(),
                service: group_service_exec(field_str(t, "group")),
                last_status: field_str_or(t, "lastStatus", ""),
                desired_status: field_str_or(t, "desiredStatus", ""),
                launch_type: field_str_or(t, "launchType", "EC2"),
            },
        );
        i = i + 1;
    }
    r
}

/// `x` is the container of task `task_arn` that description `c` describes;
/// a health of `UNKNOWN` counts as none.
pub open spec fn gui_container_of(x: Container, c: JsonV, task_arn: Seq<char>) -> bool {
    &&& x.name@ == text_of(c, "name"@, ""@)
    &&& x.task_arn@ == task_arn
    &&& x.image@ == text_of(c, "image"@, ""@)
    &&& x.last_status@ == text_of(c, "lastStatus"@, ""@)
    &&& opt_view(x.health) == (match jfield_str(c, "healthStatus"@) {
        Some(h) => if h == "UNKNOWN"@ {
            None
        } else {
            Some(h)
        },
        None => None,
    })
}

/// The container entries of the first task of a `describe-tasks` answer.
pub open spec fn first_task_containers(v: JsonV) -> Seq<JsonV> {
    let tasks = items_or_none(v, "tasks"@);
    if tasks.len() > 0 {
        items_or_none(tasks[0], "containers"@)
    } else {
        Seq::empty()
    }
}

/// The containers of the first task of a `describe-tasks` answer for task
/// `task_arn`.
pub fn containers_from(json: &Json, task_arn: &String) -> (r: Vec<Container>)
    ensures
        r@.len() == first_task_containers(json_view(*json)).len(),
        forall|i: int|
            0 <= i < r@.len() ==> gui_container_of(
                #[trigger] r@[i],
                first_task_containers(json_view(*json))[i],
                task_arn@,
            ),
{
    let tasks = items_field(json, "tasks");
    let mut r: Vec<Container> = Vec::new();
    if tasks.len() == 0 {
        return r;
    }
    let arr = items_field(&tasks[0], "containers");
    let mut i: usize = 0;
    while i < arr.len()
        invariant
            i <= arr@.len(),
            r@.len() == i,
            forall|k: int| 0 <= k < i ==> gui_container_of(#[trigger] r@[k], json_view(arr@[k]), task_arn@),
        decreases arr@.len() - i,
    {
        let c = &arr[i];
        let health = match field_str(c, "healthStatus") {
            Some(h) => {
                if crate::text::str_eq(h.as_str(), "UNKNOWN") {
                    None
                } else {
                    Some(h)
                }
            },
            None => None,
        };
        r.push(
            Container {
                name: field_str_or(c, "name", ""),
                task_arn: task_arn.clone(),
                image: field_str_or(c, "image", ""),
                last_status: field_str_or(c, "lastStatus", ""),
                health,
            },
        );
        i = i + 1;
    }
    r
}

// ─── Completion ─────────────────────────────────────────────────────────────
/// The suggestions in `aws_completer` output: its lines, trimmed, without
/// the empty ones.
pub open spec fn suggestion_lines(ls: Seq<Seq<char>>) -> Seq<Seq<char>>
    decreases ls.len(),
{
    if ls.len() == 0 {
        Seq::empty()
    } else {
        let rest = suggestion_lines(ls.drop_last());
        let t = trim(ls.last());
        if t.len() > 0 {
            rest.push(t)
        } else {
            rest
        }
    }
}

/// Reads the suggestions of `aws_completer` output (see `suggestion_lines`).
pub fn completion_lines(stdout: &str) -> (r: Vec<String>)
    ensures
        strs_view(r@) == suggestion_lines(lines_of(stdout@)),
{
    let parts = split_lines(&chars_of(stdout));
    let ghost ls = lines_of(stdout@);
    let mut r: Vec<String> = Vec::new();
    let mut i: usize = 0;
    while i < parts.len()
        invariant
            i <= parts@.len() == ls.len(),
            forall|k: int| 0 <= k < parts@.len() ==> (#[trigger] parts@[k])@ == ls[k],
            strs_view(r@) == suggestion_lines(ls.take(i as int)),
        decreases parts@.len() - i,
    {
        let t = trim_chars(&parts[i]);
        assert(ls.take(i + 1).drop_last() =~= ls.take(i as int));
        if t.len() > 0 {
            push_owned(&mut r, string_of(&t));
        }
        i = i + 1;
    }
    assert(ls.take(i as int) =~= ls);
    r
}


// ─── Listing ECS resources page by page ─────────────────────────────────────
/// Which ECS resources a listing collects.
pub enum EcsListing {
    Clusters,
    Services { cluster: String },
    Tasks { cluster: String, service: Option<String> },
}

/// How many listed names one `describe-*` call takes: 10 services, else 100.
pub open spec fn batch_size(w: EcsListing) -> nat {
    match w {
        EcsListing::Services { .. } => 10,
        _ => 100,
    }
}

/// The key of a `list-*` page that holds the names.
pub open spec fn list_key(w: EcsListing) -> Seq<char> {
    match w {
        EcsListing::Clusters => "clusterArns"@,
        EcsListing::Services { .. } => "serviceArns"@,
        EcsListing::Tasks { .. } => "taskArns"@,
    }
}

/// The arguments that list the page after `token` (the first where none).
pub open spec fn list_args_of(w: EcsListing, token: Option<Seq<char>>) -> Seq<Seq<char>> {
    match w {
        EcsListing::Clusters => seq!["ecs"@, "list-clusters"@, "--max-results"@, "100"@] + token_args(token),
        EcsListing::Services { cluster } => seq![
            "ecs"@,
            "list-services"@,
            "--cluster"@,
            cluster@,
            "--max-results"@,
            "100"@,
        ] + token_args(token),
        EcsListing::Tasks { cluster, service } => seq![
            "ecs"@,
            "list-tasks"@,
            "--cluster"@,
            cluster@,
            "--max-results"@,
            "100"@,
        ] + (match opt_view(service) {
            Some(sv) => seq!["--service-name"@, sv],
            None => Seq::empty(),
        }) + token_args(token),
    }
}

/// The arguments that describe a batch of listed names.
pub open spec fn describe_args_of(w: EcsListing, batch: Seq<Seq<char>>) -> Seq<Seq<char>> {
    match w {
        EcsListing::Clusters => seq!["ecs"@, "describe-clusters"@, "--clusters"@] + batch,
        EcsListing::Services { cluster } => seq![
            "ecs"@,
            "describe-services"@,
            "--cluster"@,
            cluster@,
            "--services"@,
        ] + batch,
        EcsListing::Tasks { cluster, .. } => seq!["ecs"@, "describe-tasks"@, "--cluster"@, cluster@, "--tasks"@]
            + batch,
    }
}

/// A listing under way: the names listed so far, the token of the next
/// page, whether every page is read, and how many batches are described.
pub struct ListingRun {
    pub what: EcsListing,
    pub arns: Vec<String>,
    pub next_token: Option<String>,
    pub listed: bool,
    pub described: usize,
}

/// What a listing asks for next.
pub enum ListingStep {
    /// Run the AWS CLI with these arguments.
    Invoke(Vec<String>),
    /// Everything is listed and described.
    Done,
}

/// Batch `i` of the names `a` cut into batches of `b`: the names from `i * b`
/// on, at most `b` of them (none past the end).
pub open spec fn batch_of(a: Seq<Seq<char>>, b: int, i: int) -> Seq<Seq<char>> {
    let lo = i * b;
    if lo < a.len() {
        a.subrange(lo, if lo + b < a.len() { lo + b } else { a.len() as int })
    } else {
        Seq::empty()
    }
}

/// The call a listing makes next: the next page until the last one is read,
/// then each batch of the listed names in turn, then none (at once where
/// nothing was listed).
pub open spec fn step_of(r: ListingRun) -> Option<Seq<Seq<char>>> {
    if !r.listed {
        Some(list_args_of(r.what, opt_view(r.next_token)))
    } else {
        let a = strs_view(r.arns@);
        let b = batch_size(r.what) as int;
        if r.described * b < a.len() {
            Some(describe_args_of(r.what, batch_of(a, b, r.described as int)))
        } else {
            None
        }
    }
}

fn listing_batch(w: &EcsListing) -> (r: usize)
    ensures
        r == batch_size(*w),
{
    match w {
        EcsListing::Services { .. } => 10,
        _ => 100,
    }
}

impl ListingRun {
    /// A listing of `what` that has read nothing yet.
    pub fn new(what: EcsListing) -> (r: ListingRun)
        ensures
            r.what == what,
            r.arns@.len() == 0,
            r.next_token is None,
            !r.listed,
            r.described == 0,
    {
        ListingRun { what, arns: Vec::new(), next_token: None, listed: false, described: 0 }
    }

    /// The call to make next (see `step_of`).
    pub fn next_step(&self) -> (r: ListingStep)
        ensures
            match step_of(*self) {
                Some(args) => r matches ListingStep::Invoke(v) && strs_view(v@) == args,
                None => r is Done,
            },
    {
        if !self.listed {
            let v = match &self.what {
                EcsListing::Clusters => list_clusters_args(&self.next_token),
                EcsListing::Services { cluster } => list_services_args(cluster, &self.next_token),
                EcsListing::Tasks { cluster, service } => list_tasks_args(cluster, service, &self.next_token),
            };
            return ListingStep::Invoke(v);
        }
        let b = listing_batch(&self.what);
        assert(self.described * b <= usize::MAX * 100) by (nonlinear_arith)
            requires
                b <= 100,
                self.described <= usize::MAX,
        ;
        let lo: u128 = self.described as u128 * b as u128;
        let n = self.arns.len();
        if lo >= n as u128 {
            return ListingStep::Done;
        }
        let lo = lo as usize;
        let hi: usize = if (lo as u128) + (b as u128) < n as u128 {
            lo + b
        } else {
            n
        };
        let mut batch: Vec<String> = Vec::new();
        let mut i: usize = lo;
        while i < hi
            invariant
                lo <= i <= hi <= self.arns@.len(),
                strs_view(batch@) == strs_view(self.arns@).subrange(lo as int, i as int),
            decreases hi - i,
        {
            let x = self.arns[i].clone();
            let ghost old_batch = batch@;
            batch.push(x);
            assert(x@ == self.arns@[i as int]@);
            assert(strs_view(batch@) =~= strs_view(old_batch).push(x@));
            assert(strs_view(batch@) =~= strs_view(self.arns@).subrange(lo as int, i + 1));
            i = i + 1;
        }
        let v = match &self.what {
            EcsListing::Clusters => describe_clusters_args(&batch),
            EcsListing::Services { cluster } => describe_services_args(cluster, &batch),
            EcsListing::Tasks { cluster, .. } => describe_tasks_args(cluster, &batch),
        };
        ListingStep::Invoke(v)
    }

    /// Takes a `list-*` page: its names are added to those listed, its token
    /// is kept for the next page, and the listing is complete where the page
    /// has no token.
    pub fn on_list_page(&mut self, page: &Json)
        ensures
            final(self).what == old(self).what,
            strs_view(final(self).arns@) == strs_view(old(self).arns@) + str_items(
                jarr_or_empty(jidx(json_view(*page), list_key(old(self).what))),
            ),
            opt_view(final(self).next_token) == jfield_str(json_view(*page), "nextToken"@),
            final(self).listed == (jfield_str(json_view(*page), "nextToken"@) is None),
            final(self).described == old(self).described,
    {
        let key = match &self.what {
            EcsListing::Clusters => "clusterArns",
            EcsListing::Services { .. } => "serviceArns",
            EcsListing::Tasks { .. } => "taskArns",
        };
        let (mut items, tok) = list_page(page, key);
        let ghost before = strs_view(self.arns@);
        let ghost added = strs_view(items@);
        self.arns.append(&mut items);
        assert(strs_view(self.arns@) =~= before + added);
        self.listed = tok.is_none();
        self.next_token = tok;
    }

    /// Notes that the batch `next_step` asked to describe is described (where
    /// one was pending).
    pub fn on_described(&mut self)
        ensures
            final(self).what == old(self).what,
            final(self).arns == old(self).arns,
            final(self).next_token == old(self).next_token,
            final(self).listed == old(self).listed,
            final(self).described == if old(self).listed && old(self).described * batch_size(old(self).what)
                < old(self).arns@.len() {
                old(self).described + 1
            } else {
                old(self).described as int
            },
    {
        let b = listing_batch(&self.what);
        assert(self.described * b <= usize::MAX * 100) by (nonlinear_arith)
            requires
                b <= 100,
                self.described <= usize::MAX,
        ;
        if self.listed && (self.described as u128) * (b as u128) < self.arns.len() as u128 {
            assert(self.described < usize::MAX) by (nonlinear_arith)
                requires
                    self.described * b < self.arns@.len(),
                    self.arns@.len() <= usize::MAX,
                    b >= 1,
            ;
            self.described = self.described + 1;
        }
    }
}

} // verus!
