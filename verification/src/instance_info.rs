//! The text of the instance information popup: the listing of running
//! instances, the readable description of one instance, and its JSON.
use vstd::prelude::*;
use crate::json::{
    Json, JsonV, json_view, json_parse, json_parse_error, parse_json, jidx, jget, jat, jstr, ju64,
    jbool, jarr_or_empty, jstr_or, member, elem, as_str, as_u64, as_bool, array_items, jfield_str,
    field_str, field_str_or,
    shown_text, text_or_dash, pretty_json, json_pretty,
};
use crate::text::{
    concat, push_str, str_to_string, decimal, u64_to_dec, last_segment, after_last_slash, lowercase,
    to_lower, contains_seq, str_contains, lines_of, split_lines, chars_of, string_of,
};
use crate::cli_output::text_of;
use crate::instances::{Ec2Instance, InstanceInfoPopup, InfoTab, strs};

verus! {

// ─── The instance list ──────────────────────────────────────────────────────
/// `x` is the instance that listing entry `v` describes; its platform is
/// `windows` where the entry's platform, lowercased, mentions it, else
/// `linux`.
pub open spec fn ec2_instance_of(x: Ec2Instance, v: JsonV) -> bool {
    &&& x.instance_id@ == shown_text(jidx(v, "InstanceId"@))
    &&& x.name@ == jstr_or(jidx(v, "Name"@), "(no name)"@)
    &&& x._state@ == shown_text(jidx(v, "State"@))
    &&& x.private_ip@ == shown_text(jidx(v, "PrivateIp"@))
    &&& x._instance_type@ == shown_text(jidx(v, "Type"@))
    &&& x.platform@ == (match jstr(jidx(v, "Platform"@)) {
        Some(p) => if contains_seq(lowercase(p), "windows"@) {
            "windows"@
        } else {
            "linux"@
        },
        None => "linux"@,
    })
}

/// The entries of an instance listing: the elements of the JSON array it is,
/// or none where it is not one.
pub open spec fn listing_entries(text: Seq<char>) -> Seq<JsonV> {
    match json_parse(text) {
        Some(JsonV::Array(a)) => a,
        _ => Seq::empty(),
    }
}

fn member_text_or(v: &Json, k: &str, d: &str) -> (r: String)
    ensures
        r@ == jstr_or(jidx(json_view(*v), k@), d@),
{
    match member(v, k) {
        Some(x) => match as_str(x) {
            Some(s) => s.clone(),
            None => str_to_string(d),
        },
        None => str_to_string(d),
    }
}

/// Reads the instance listing printed by `describe-instances` with the query
/// of the Instances tab: one instance per entry (see `ec2_instance_of`).
pub fn parse_instances(json: &str) -> (r: Vec<Ec2Instance>)
    ensures
        r@.len() == listing_entries(json@).len(),
        forall|i: int|
            0 <= i < r@.len() ==> ec2_instance_of(#[trigger] r@[i], listing_entries(json@)[i]),
{
    let root = match parse_json(json) {
        Ok(v) => v,
        Err(_) => return Vec::new(),
    };
    let items: &[Json] = match &root {
        Json::Array(a) => a.as_slice(),
        _ => &[],
    };
    assert(items@.len() == listing_entries(json@).len());
    let mut r: Vec<Ec2Instance> = Vec::new();
    let mut i: usize = 0;
    while i < items.len()
        invariant
            i <= items@.len() == listing_entries(json@).len(),
            forall|k: int|
                0 <= k < items@.len() ==> listing_entries(json@)[k] == #[trigger] json_view(items@[k]),
            r@.len() == i,
            forall|k: int| 0 <= k < i ==> ec2_instance_of(#[trigger] r@[k], json_view(items@[k])),
        decreases items@.len() - i,
    {
        let v = &items[i];
        let platform = match member(v, "Platform") {
            Some(p) => match as_str(p) {
                Some(ps) => {
                    let l = to_lower(ps.as_str());
                    if str_contains(l.as_str(), "windows") {
                        str_to_string("windows")
                    } else {
                        str_to_string("linux")
                    }
                },
                None => str_to_string("linux"),
            },
            None => str_to_string("linux"),
        };
        r.push(
            Ec2Instance {
                instance_id: text_or_dash(member(v, "InstanceId")),
                name: member_text_or(v, "Name", "(no name)"),
                _state: text_or_dash(member(v, "State")),
                private_ip: text_or_dash(member(v, "PrivateIp")),
                _instance_type: text_or_dash(member(v, "Type")),
                platform,
            },
        );
        i = i + 1;
    }
    r
}

// ─── The readable description ───────────────────────────────────────────────
/// One line where `c` holds, none otherwise.
pub open spec fn line_if(c: bool, l: Seq<char>) -> Seq<Seq<char>> {
    if c {
        seq![l]
    } else {
        Seq::empty()
    }
}

/// `yes` or `no`.
pub open spec fn yes_no(b: bool) -> Seq<char> {
    if b {
        "yes"@
    } else {
        "no"@
    }
}

/// `s` padded with spaces on the right to `w` characters (`{:<w}`).
pub open spec fn pad_right(s: Seq<char>, w: nat) -> Seq<char> {
    if s.len() >= w {
        s
    } else {
        s + Seq::new((w - s.len()) as nat, |i: int| ' ')
    }
}

/// The member `b` of the member `a`.
pub open spec fn at2(j: JsonV, a: Seq<char>, b: Seq<char>) -> JsonV {
    jidx(jidx(j, a), b)
}

/// The members an instance description must have: the description reads
/// each of them directly.
pub open spec fn has_required_keys(inst: JsonV) -> bool {
    &&& jget(inst, "InstanceId"@) is Some
    &&& jget(inst, "InstanceType"@) is Some
    &&& jget(inst, "Architecture"@) is Some
    &&& jget(inst, "ImageId"@) is Some
    &&& jget(inst, "State"@) is Some
    &&& jget(inst, "LaunchTime"@) is Some
    &&& jget(inst, "PrivateIpAddress"@) is Some
    &&& jget(inst, "PrivateDnsName"@) is Some
    &&& jget(inst, "VpcId"@) is Some
    &&& jget(inst, "SubnetId"@) is Some
    &&& jget(inst, "Placement"@) is Some
    &&& jget(inst, "IamInstanceProfile"@) is Some
    &&& jget(inst, "CpuOptions"@) is Some
    &&& jget(inst, "Monitoring"@) is Some
}

/// The core and thread counts of an instance, where both are given.
pub open spec fn cpu_counts(inst: JsonV) -> Option<(u64, u64)> {
    match (ju64(at2(inst, "CpuOptions"@, "CoreCount"@)), ju64(at2(inst, "CpuOptions"@, "ThreadsPerCore"@))) {
        (Some(c), Some(t)) => Some((c, t)),
        _ => None,
    }
}

/// The description of `inst` can be written: it is an object with the
/// required members, and its vCPU count fits in 64 bits.
pub open spec fn describable(inst: JsonV) -> bool {
    &&& inst is Object
    &&& has_required_keys(inst)
    &&& match cpu_counts(inst) {
        Some((c, t)) => c * t <= u64::MAX,
        None => true,
    }
}

pub open spec fn identity_lines(inst: JsonV) -> Seq<Seq<char>> {
    seq![
        "── Identity ─────────────────────────────────────────"@,
        "  Instance ID      "@ + shown_text(jidx(inst, "InstanceId"@)),
        "  Instance Type    "@ + shown_text(jidx(inst, "InstanceType"@)),
        "  Architecture     "@ + shown_text(jidx(inst, "Architecture"@)),
        "  Platform         "@ + text_of(inst, "Platform"@, "Linux"@),
        "  AMI ID           "@ + shown_text(jidx(inst, "ImageId"@)),
        Seq::empty(),
    ]
}

pub open spec fn state_lines(inst: JsonV) -> Seq<Seq<char>> {
    seq![
        "── State ────────────────────────────────────────────"@,
        "  State            "@ + shown_text(at2(inst, "State"@, "Name"@)),
        "  Launch Time      "@ + shown_text(jidx(inst, "LaunchTime"@)),
    ] + (match jfield_str(inst, "StateTransitionReason"@) {
        Some(r) => line_if(r.len() > 0, "  State Reason     "@ + r),
        None => Seq::empty(),
    }) + seq![Seq::empty()]
}

pub open spec fn network_lines(inst: JsonV) -> Seq<Seq<char>> {
    seq![
        "── Network ──────────────────────────────────────────"@,
        "  Private IP       "@ + shown_text(jidx(inst, "PrivateIpAddress"@)),
        "  Private DNS      "@ + shown_text(jidx(inst, "PrivateDnsName"@)),
    ] + (match jfield_str(inst, "PublicIpAddress"@) {
        Some(ip) => seq!["  Public IP        "@ + ip],
        None => Seq::empty(),
    }) + (match jfield_str(inst, "PublicDnsName"@) {
        Some(d) => line_if(d.len() > 0, "  Public DNS       "@ + d),
        None => Seq::empty(),
    }) + seq![
        "  VPC ID           "@ + shown_text(jidx(inst, "VpcId"@)),
        "  Subnet ID        "@ + shown_text(jidx(inst, "SubnetId"@)),
    ] + (match jstr(at2(inst, "Placement"@, "AvailabilityZone"@)) {
        Some(az) => seq!["  Availability Zone "@ + az],
        None => Seq::empty(),
    }) + seq![Seq::empty()]
}

/// The line of a security group.
pub open spec fn group_line(sg: JsonV) -> Seq<char> {
    "  Security Group   "@ + shown_text(jidx(sg, "GroupId"@)) + " ("@ + shown_text(
        jidx(sg, "GroupName"@),
    ) + ")"@
}

pub open spec fn security_lines(inst: JsonV) -> Seq<Seq<char>> {
    seq!["── Security ─────────────────────────────────────────"@] + (match jfield_str(
        inst,
        "KeyName"@,
    ) {
        Some(k) => seq!["  Key Pair         "@ + k],
        None => Seq::empty(),
    }) + (match jstr(at2(inst, "IamInstanceProfile"@, "Arn"@)) {
        Some(arn) => seq!["  IAM Role         "@ + last_segment(arn)],
        None => Seq::empty(),
    }) + (match jfield_array(inst, "SecurityGroups"@) {
        Some(a) => Seq::new(a.len(), |i: int| group_line(a[i])),
        None => Seq::empty(),
    }) + seq![Seq::empty()]
}

pub open spec fn compute_lines(inst: JsonV) -> Seq<Seq<char>> {
    seq!["── Compute ──────────────────────────────────────────"@] + (match cpu_counts(inst) {
        Some((c, t)) => seq![
            "  vCPUs            "@ + decimal((c * t) as nat),
            "  CPU Cores        "@ + decimal(c as nat) + "  ("@ + decimal(t as nat)
                + " thread(s)/core)"@,
        ],
        None => Seq::empty(),
    }) + (match jget(inst, "EbsOptimized"@) {
        Some(v) => match jbool(v) {
            Some(b) => seq!["  EBS Optimized    "@ + yes_no(b)],
            None => Seq::empty(),
        },
        None => Seq::empty(),
    }) + (match jstr(at2(inst, "Monitoring"@, "State"@)) {
        Some(m) => seq!["  Monitoring       "@ + m],
        None => Seq::empty(),
    }) + seq![Seq::empty()]
}

/// The line of a block device.
pub open spec fn volume_line(v: JsonV) -> Seq<char> {
    "  "@ + shown_text(jidx(v, "DeviceName"@)) + " → "@ + shown_text(at2(v, "Ebs"@, "VolumeId"@))
        + "  (delete-on-term: "@ + yes_no(
        match jbool(at2(v, "Ebs"@, "DeleteOnTermination"@)) {
            Some(b) => b,
            None => false,
        },
    ) + ")"@
}

pub open spec fn storage_lines(inst: JsonV) -> Seq<Seq<char>> {
    match jfield_array(inst, "BlockDeviceMappings"@) {
        Some(vols) => if vols.len() > 0 {
            seq!["── Storage ──────────────────────────────────────────"@] + Seq::new(
                vols.len(),
                |i: int| volume_line(vols[i]),
            ) + seq![Seq::empty()]
        } else {
            Seq::empty()
        },
        None => Seq::empty(),
    }
}

/// The line of a tag: its key padded to 24 characters, then its value.
pub open spec fn tag_line(t: JsonV) -> Seq<char> {
    "  "@ + pad_right(shown_text(jidx(t, "Key"@)), 24) + " "@ + shown_text(jidx(t, "Value"@))
}

pub open spec fn tags_lines(inst: JsonV) -> Seq<Seq<char>> {
    match jfield_array(inst, "Tags"@) {
        Some(tags) => if tags.len() > 0 {
            seq!["── Tags ─────────────────────────────────────────────"@] + Seq::new(
                tags.len(),
                |i: int| tag_line(tags[i]),
            ) + seq![Seq::empty()]
        } else {
            Seq::empty()
        },
        None => Seq::empty(),
    }
}

/// The readable description of an instance: identity, state, network,
/// security, compute, storage and tags.
pub open spec fn human_lines(inst: JsonV) -> Seq<Seq<char>> {
    identity_lines(inst) + state_lines(inst) + network_lines(inst) + security_lines(inst)
        + compute_lines(inst) + storage_lines(inst) + tags_lines(inst)
}

/// The instance that a `describe-instances` answer describes first.
pub open spec fn first_instance(root: JsonV) -> JsonV {
    jat(jidx(jat(jidx(root, "Reservations"@), 0), "Instances"@), 0)
}

/// The popup text for a `describe-instances` answer: the parse error, a
/// notice where no instance is found, or the description of the first
/// instance; `None` where that instance lacks a member the description reads
/// directly, or its vCPU count does not fit.
pub open spec fn human_text(text: Seq<char>) -> Option<Seq<Seq<char>>> {
    match json_parse(text) {
        None => Some(seq!["Parse error: "@ + json_parse_error(text)]),
        Some(root) => {
            let inst = first_instance(root);
            if !(inst is Object) {
                Some(seq!["No instance data found."@])
            } else if describable(inst) {
                Some(human_lines(inst))
            } else {
                None
            }
        },
    }
}


// ─── Writing the description ────────────────────────────────────────────────
/// The view of an optional value (none reads as `Null`).
pub open spec fn oview(j: Option<&Json>) -> JsonV {
    match j {
        Some(v) => json_view(*v),
        None => JsonV::Null,
    }
}

fn at2_exec<'a>(j: &'a Json, a: &str, b: &str) -> (r: Option<&'a Json>)
    ensures
        oview(r) == at2(json_view(*j), a@, b@),
{
    match member(j, a) {
        Some(x) => member(x, b),
        None => None,
    }
}

fn dash_line(prefix: &str, v: Option<&Json>) -> (r: String)
    ensures
        r@ == prefix@ + shown_text(oview(v)),
{
    let t = text_or_dash(v);
    concat(prefix, t.as_str())
}

fn identity_exec(inst: &Json) -> (r: Vec<String>)
    ensures
        strs(r@) == identity_lines(json_view(*inst)),
{
    let mut r: Vec<String> = Vec::new();
    r.push(str_to_string("── Identity ─────────────────────────────────────────"));
    r.push(dash_line("  Instance ID      ", member(inst, "InstanceId")));
    r.push(dash_line("  Instance Type    ", member(inst, "InstanceType")));
    r.push(dash_line("  Architecture     ", member(inst, "Architecture")));
    let platform = field_str_or(inst, "Platform", "Linux");
    r.push(concat("  Platform         ", platform.as_str()));
    r.push(dash_line("  AMI ID           ", member(inst, "ImageId")));
    r.push(String::new());
    assert(strs(r@) =~= identity_lines(json_view(*inst)));
    r
}

fn state_exec(inst: &Json) -> (r: Vec<String>)
    ensures
        strs(r@) == state_lines(json_view(*inst)),
{
    let mut r: Vec<String> = Vec::new();
    r.push(str_to_string("── State ────────────────────────────────────────────"));
    r.push(dash_line("  State            ", at2_exec(inst, "State", "Name")));
    r.push(dash_line("  Launch Time      ", member(inst, "LaunchTime")));
    let ghost head = strs(r@);
    match field_str(inst, "StateTransitionReason") {
        Some(reason) => {
            if reason.as_str().unicode_len() > 0 {
                r.push(concat("  State Reason     ", reason.as_str()));
            }
        },
        None => {},
    }
    let ghost mid = strs(r@);
    r.push(String::new());
    assert(strs(r@) =~= mid + seq![Seq::<char>::empty()]);
    assert(strs(r@) =~= state_lines(json_view(*inst)));
    r
}

fn network_exec(inst: &Json) -> (r: Vec<String>)
    ensures
        strs(r@) == network_lines(json_view(*inst)),
{
    let ghost j = json_view(*inst);
    let mut r: Vec<String> = Vec::new();
    r.push(str_to_string("── Network ──────────────────────────────────────────"));
    r.push(dash_line("  Private IP       ", member(inst, "PrivateIpAddress")));
    r.push(dash_line("  Private DNS      ", member(inst, "PrivateDnsName")));
    let ghost s1 = strs(r@);
    match field_str(inst, "PublicIpAddress") {
        Some(ip) => {
            r.push(concat("  Public IP        ", ip.as_str()));
        },
        None => {},
    }
    let ghost s2 = strs(r@);
    assert(s2 =~= s1 + (match jfield_str(j, "PublicIpAddress"@) {
        Some(ip) => seq!["  Public IP        "@ + ip],
        None => Seq::<Seq<char>>::empty(),
    }));
    match field_str(inst, "PublicDnsName") {
        Some(dns) => {
            if dns.as_str().unicode_len() > 0 {
                r.push(concat("  Public DNS       ", dns.as_str()));
            }
        },
        None => {},
    }
    let ghost s3 = strs(r@);
    assert(s3 =~= s2 + (match jfield_str(j, "PublicDnsName"@) {
        Some(d) => line_if(d.len() > 0, "  Public DNS       "@ + d),
        None => Seq::<Seq<char>>::empty(),
    }));
    r.push(dash_line("  VPC ID           ", member(inst, "VpcId")));
    r.push(dash_line("  Subnet ID        ", member(inst, "SubnetId")));
    let ghost s4 = strs(r@);
    match at2_exec(inst, "Placement", "AvailabilityZone") {
        Some(v) => match as_str(v) {
            Some(az) => {
                r.push(concat("  Availability Zone ", az.as_str()));
            },
            None => {},
        },
        None => {},
    }
    let ghost s5 = strs(r@);
    assert(s5 =~= s4 + (match jstr(at2(j, "Placement"@, "AvailabilityZone"@)) {
        Some(az) => seq!["  Availability Zone "@ + az],
        None => Seq::<Seq<char>>::empty(),
    }));
    r.push(String::new());
    assert(strs(r@) =~= network_lines(j));
    r
}


fn optional_items<'a>(inst: &'a Json, k: &str) -> (r: Option<&'a [Json]>)
    ensures
        match r {
            Some(a) => jfield_array(json_view(*inst), k@) matches Some(v) && a@.len() == v.len()
                && forall|t: int| 0 <= t < a@.len() ==> v[t] == #[trigger] json_view(a@[t]),
            None => jfield_array(json_view(*inst), k@) is None,
        },
{
    match member(inst, k) {
        Some(v) => match v {
            Json::Array(a) => {
                let r = a.as_slice();
                proof {
                    assert(json_view(*v) is Array);
                }
                Some(r)
            },
            _ => None,
        },
        None => None,
    }
}

/// The elements of an optional array member (`get(k).and_then(as_array)`).
pub open spec fn jfield_array(j: JsonV, k: Seq<char>) -> Option<Seq<JsonV>> {
    match jget(j, k) {
        Some(JsonV::Array(a)) => Some(a),
        _ => None,
    }
}

fn security_exec(inst: &Json) -> (r: Vec<String>)
    ensures
        strs(r@) == security_lines(json_view(*inst)),
{
    let ghost j = json_view(*inst);
    let mut r: Vec<String> = Vec::new();
    r.push(str_to_string("── Security ─────────────────────────────────────────"));
    let ghost s0 = strs(r@);
    match field_str(inst, "KeyName") {
        Some(k) => {
            r.push(concat("  Key Pair         ", k.as_str()));
        },
        None => {},
    }
    let ghost s1 = strs(r@);
    assert(s1 =~= s0 + (match jfield_str(j, "KeyName"@) {
        Some(k) => seq!["  Key Pair         "@ + k],
        None => Seq::<Seq<char>>::empty(),
    }));
    match at2_exec(inst, "IamInstanceProfile", "Arn") {
        Some(v) => match as_str(v) {
            Some(arn) => {
                let role = after_last_slash(arn.as_str());
                r.push(concat("  IAM Role         ", role.as_str()));
            },
            None => {},
        },
        None => {},
    }
    let ghost s2 = strs(r@);
    assert(s2 =~= s1 + (match jstr(at2(j, "IamInstanceProfile"@, "Arn"@)) {
        Some(arn) => seq!["  IAM Role         "@ + last_segment(arn)],
        None => Seq::<Seq<char>>::empty(),
    }));
    let ghost groups = match jfield_array(j, "SecurityGroups"@) {
        Some(a) => Seq::new(a.len(), |i: int| group_line(a[i])),
        None => Seq::<Seq<char>>::empty(),
    };
    match optional_items(inst, "SecurityGroups") {
        Some(sgs) => {
            let mut i: usize = 0;
            while i < sgs.len()
                invariant
                    i <= sgs@.len(),
                    jfield_array(j, "SecurityGroups"@) matches Some(v) && sgs@.len() == v.len()
                        && forall|t: int| 0 <= t < sgs@.len() ==> v[t] == #[trigger] json_view(sgs@[t]),
                    strs(r@) == s2 + Seq::new(i as nat, |t: int| group_line(json_view(sgs@[t]))),
                decreases sgs@.len() - i,
            {
                let sg = &sgs[i];
                let mut l = dash_line("  Security Group   ", member(sg, "GroupId"));
                push_str(&mut l, " (");
                let name = text_or_dash(member(sg, "GroupName"));
                push_str(&mut l, name.as_str());
                push_str(&mut l, ")");
                let ghost before = strs(r@);
                r.push(l);
                assert(strs(r@) =~= before.push(l@));
                i = i + 1;
                assert(strs(r@) =~= s2 + Seq::new(i as nat, |t: int| group_line(json_view(sgs@[t]))));
            }
            assert(Seq::new(i as nat, |t: int| group_line(json_view(sgs@[t]))) =~= groups);
        },
        None => {
            assert(strs(r@) =~= s2 + groups);
        },
    }
    let ghost s3 = strs(r@);
    r.push(String::new());
    assert(strs(r@) =~= s3.push(Seq::<char>::empty()));
    assert(strs(r@) =~= security_lines(j));
    r
}

fn compute_exec(inst: &Json) -> (r: Vec<String>)
    requires
        describable(json_view(*inst)),
    ensures
        strs(r@) == compute_lines(json_view(*inst)),
{
    let ghost j = json_view(*inst);
    let mut r: Vec<String> = Vec::new();
    r.push(str_to_string("── Compute ──────────────────────────────────────────"));
    let ghost s0 = strs(r@);
    let cores = match at2_exec(inst, "CpuOptions", "CoreCount") {
        Some(v) => as_u64(v),
        None => None,
    };
    let threads = match at2_exec(inst, "CpuOptions", "ThreadsPerCore") {
        Some(v) => as_u64(v),
        None => None,
    };
    match (cores, threads) {
        (Some(c), Some(t)) => {
            let n = c * t;
            r.push(concat("  vCPUs            ", u64_to_dec(n).as_str()));
            let mut l = concat("  CPU Cores        ", u64_to_dec(c).as_str());
            push_str(&mut l, "  (");
            push_str(&mut l, u64_to_dec(t).as_str());
            push_str(&mut l, " thread(s)/core)");
            r.push(l);
        },
        _ => {},
    }
    let ghost s1 = strs(r@);
    assert(s1 =~= s0 + (match cpu_counts(j) {
        Some((c, t)) => seq![
            "  vCPUs            "@ + decimal((c * t) as nat),
            "  CPU Cores        "@ + decimal(c as nat) + "  ("@ + decimal(t as nat)
                + " thread(s)/core)"@,
        ],
        None => Seq::<Seq<char>>::empty(),
    }));
    match member(inst, "EbsOptimized") {
        Some(v) => match as_bool(v) {
            Some(b) => {
                r.push(concat("  EBS Optimized    ", if b { "yes" } else { "no" }));
            },
            None => {},
        },
        None => {},
    }
    let ghost s2 = strs(r@);
    assert(s2 =~= s1 + (match jget(j, "EbsOptimized"@) {
        Some(v) => match jbool(v) {
            Some(b) => seq!["  EBS Optimized    "@ + yes_no(b)],
            None => Seq::<Seq<char>>::empty(),
        },
        None => Seq::<Seq<char>>::empty(),
    }));
    match at2_exec(inst, "Monitoring", "State") {
        Some(v) => match as_str(v) {
            Some(m) => {
                r.push(concat("  Monitoring       ", m.as_str()));
            },
            None => {},
        },
        None => {},
    }
    let ghost s3 = strs(r@);
    assert(s3 =~= s2 + (match jstr(at2(j, "Monitoring"@, "State"@)) {
        Some(m) => seq!["  Monitoring       "@ + m],
        None => Seq::<Seq<char>>::empty(),
    }));
    r.push(String::new());
    assert(strs(r@) =~= compute_lines(j));
    r
}


fn pad_exec(s: &String, w: usize) -> (r: String)
    ensures
        r@ == pad_right(s@, w as nat),
{
    let n = s.as_str().unicode_len();
    let mut r = s.clone();
    if n < w {
        let mut k = n;
        while k < w
            invariant
                n <= k <= w,
                n == s@.len(),
                r@ == s@ + Seq::new((k - n) as nat, |i: int| ' '),
            decreases w - k,
        {
            let ghost before = r@;
            crate::text::push_char(&mut r, ' ');
            assert(r@ =~= s@ + Seq::new((k + 1 - n) as nat, |i: int| ' '));
            k = k + 1;
        }
    }
    r
}

fn storage_exec(inst: &Json) -> (r: Vec<String>)
    ensures
        strs(r@) == storage_lines(json_view(*inst)),
{
    let ghost j = json_view(*inst);
    let mut r: Vec<String> = Vec::new();
    match optional_items(inst, "BlockDeviceMappings") {
        Some(vols) => {
            if vols.len() > 0 {
                r.push(str_to_string("── Storage ──────────────────────────────────────────"));
                let ghost s0 = strs(r@);
                let mut i: usize = 0;
                while i < vols.len()
                    invariant
                        i <= vols@.len(),
                        jfield_array(j, "BlockDeviceMappings"@) matches Some(v) && vols@.len()
                            == v.len() && forall|t: int|
                            0 <= t < vols@.len() ==> v[t] == #[trigger] json_view(vols@[t]),
                        strs(r@) == s0 + Seq::new(i as nat, |t: int| volume_line(json_view(vols@[t]))),
                    decreases vols@.len() - i,
                {
                    let v = &vols[i];
                    let mut l = dash_line("  ", member(v, "DeviceName"));
                    push_str(&mut l, " → ");
                    let vid = text_or_dash(at2_exec(v, "Ebs", "VolumeId"));
                    push_str(&mut l, vid.as_str());
                    push_str(&mut l, "  (delete-on-term: ");
                    let del = match at2_exec(v, "Ebs", "DeleteOnTermination") {
                        Some(x) => match as_bool(x) {
                            Some(b) => b,
                            None => false,
                        },
                        None => false,
                    };
                    push_str(&mut l, if del { "yes" } else { "no" });
                    push_str(&mut l, ")");
                    let ghost before = strs(r@);
                    r.push(l);
                    assert(strs(r@) =~= before.push(l@));
                    i = i + 1;
                    assert(strs(r@) =~= s0 + Seq::new(i as nat, |t: int| volume_line(json_view(vols@[t]))));
                }
                let ghost s1 = strs(r@);
                r.push(String::new());
                assert(strs(r@) =~= s1.push(Seq::<char>::empty()));
                assert(strs(r@) =~= storage_lines(j));
            } else {
                assert(strs(r@) =~= storage_lines(j));
            }
        },
        None => {
            assert(strs(r@) =~= storage_lines(j));
        },
    }
    r
}

fn tags_exec(inst: &Json) -> (r: Vec<String>)
    ensures
        strs(r@) == tags_lines(json_view(*inst)),
{
    let ghost j = json_view(*inst);
    let mut r: Vec<String> = Vec::new();
    match optional_items(inst, "Tags") {
        Some(tags) => {
            if tags.len() > 0 {
                r.push(str_to_string("── Tags ─────────────────────────────────────────────"));
                let ghost s0 = strs(r@);
                let mut i: usize = 0;
                while i < tags.len()
                    invariant
                        i <= tags@.len(),
                        jfield_array(j, "Tags"@) matches Some(v) && tags@.len() == v.len()
                            && forall|t: int|
                            0 <= t < tags@.len() ==> v[t] == #[trigger] json_view(tags@[t]),
                        strs(r@) == s0 + Seq::new(i as nat, |t: int| tag_line(json_view(tags@[t]))),
                    decreases tags@.len() - i,
                {
                    let t = &tags[i];
                    let key = text_or_dash(member(t, "Key"));
                    let padded = pad_exec(&key, 24);
                    let mut l = concat("  ", padded.as_str());
                    push_str(&mut l, " ");
                    let value = text_or_dash(member(t, "Value"));
                    push_str(&mut l, value.as_str());
                    let ghost before = strs(r@);
                    r.push(l);
                    assert(strs(r@) =~= before.push(l@));
                    i = i + 1;
                    assert(strs(r@) =~= s0 + Seq::new(i as nat, |k: int| tag_line(json_view(tags@[k]))));
                }
                let ghost s1 = strs(r@);
                r.push(String::new());
                assert(strs(r@) =~= s1.push(Seq::<char>::empty()));
                assert(strs(r@) =~= tags_lines(j));
            } else {
                assert(strs(r@) =~= tags_lines(j));
            }
        },
        None => {
            assert(strs(r@) =~= tags_lines(j));
        },
    }
    r
}

fn append_lines(r: &mut Vec<String>, more: Vec<String>)
    ensures
        strs(final(r)@) == strs(old(r)@) + strs(more@),
{
    let mut more = more;
    let ghost a = strs(r@);
    let ghost b = strs(more@);
    r.append(&mut more);
    assert(strs(r@) =~= a + b);
}

/// Writes the readable description of an instance (see `human_lines`).
pub fn instance_human_lines(inst: &Json) -> (r: Vec<String>)
    requires
        describable(json_view(*inst)),
    ensures
        strs(r@) == human_lines(json_view(*inst)),
{
    let mut r = identity_exec(inst);
    append_lines(&mut r, state_exec(inst));
    append_lines(&mut r, network_exec(inst));
    append_lines(&mut r, security_exec(inst));
    append_lines(&mut r, compute_exec(inst));
    append_lines(&mut r, storage_exec(inst));
    append_lines(&mut r, tags_exec(inst));
    r
}

/// Whether the description of `inst` can be written (see `describable`).
pub fn is_describable(inst: &Json) -> (r: bool)
    ensures
        r == describable(json_view(*inst)),
{
    let is_obj = match inst {
        Json::Object(_) => true,
        _ => false,
    };
    if !is_obj {
        return false;
    }
    let keys = member(inst, "InstanceId").is_some() && member(inst, "InstanceType").is_some()
        && member(inst, "Architecture").is_some() && member(inst, "ImageId").is_some() && member(
        inst,
        "State",
    ).is_some() && member(inst, "LaunchTime").is_some() && member(inst, "PrivateIpAddress").is_some()
        && member(inst, "PrivateDnsName").is_some() && member(inst, "VpcId").is_some() && member(
        inst,
        "SubnetId",
    ).is_some() && member(inst, "Placement").is_some() && member(inst, "IamInstanceProfile").is_some()
        && member(inst, "CpuOptions").is_some() && member(inst, "Monitoring").is_some();
    if !keys {
        return false;
    }
    let cores = match at2_exec(inst, "CpuOptions", "CoreCount") {
        Some(v) => as_u64(v),
        None => None,
    };
    let threads = match at2_exec(inst, "CpuOptions", "ThreadsPerCore") {
        Some(v) => as_u64(v),
        None => None,
    };
    match (cores, threads) {
        (Some(c), Some(t)) => c.checked_mul(t).is_some(),
        _ => true,
    }
}

/// The popup text for a `describe-instances` answer (see `human_text`).
pub fn format_instance_human(json: &str) -> (r: Option<Vec<String>>)
    ensures
        match r {
            Some(v) => human_text(json@) == Some(strs(v@)),
            None => human_text(json@) is None,
        },
{
    let root = match parse_json(json) {
        Ok(v) => v,
        Err(e) => {
            let mut r: Vec<String> = Vec::new();
            r.push(concat("Parse error: ", e.as_str()));
            assert(strs(r@) =~= seq!["Parse error: "@ + json_parse_error(json@)]);
            return Some(r);
        },
    };
    let inst = match member(&root, "Reservations") {
        Some(a) => match elem(a, 0) {
            Some(b) => match member(b, "Instances") {
                Some(c) => elem(c, 0),
                None => None,
            },
            None => None,
        },
        None => None,
    };
    assert(oview(inst) == first_instance(json_view(root)));
    match inst {
        Some(i) => {
            if !(match i {
                Json::Object(_) => true,
                _ => false,
            }) {
                let mut r: Vec<String> = Vec::new();
                r.push(str_to_string("No instance data found."));
                assert(strs(r@) =~= seq!["No instance data found."@]);
                Some(r)
            } else if is_describable(i) {
                Some(instance_human_lines(i))
            } else {
                None
            }
        },
        None => {
            let mut r: Vec<String> = Vec::new();
            r.push(str_to_string("No instance data found."));
            assert(strs(r@) =~= seq!["No instance data found."@]);
            Some(r)
        },
    }
}


// ─── The JSON view and the popup ────────────────────────────────────────────
/// The lines of a text as strings (`str::lines`).
pub fn text_lines(text: &str) -> (r: Vec<String>)
    ensures
        strs(r@) == lines_of(text@),
{
    let parts = split_lines(&chars_of(text));
    let mut r: Vec<String> = Vec::new();
    let mut i: usize = 0;
    while i < parts.len()
        invariant
            i <= parts@.len() == lines_of(text@).len(),
            forall|k: int| 0 <= k < parts@.len() ==> (#[trigger] parts@[k])@ == lines_of(text@)[k],
            r@.len() == i,
            forall|k: int| 0 <= k < i ==> (#[trigger] r@[k])@ == lines_of(text@)[k],
        decreases parts@.len() - i,
    {
        r.push(string_of(&parts[i]));
        i = i + 1;
    }
    assert(strs(r@) =~= lines_of(text@));
    r
}

/// The lines of the JSON view: the answer pretty-printed, or as it is where
/// it is not JSON.
pub open spec fn json_view_lines(text: Seq<char>) -> Seq<Seq<char>> {
    match json_parse(text) {
        Some(v) => lines_of(json_pretty(v)),
        None => lines_of(text),
    }
}

/// Pretty-prints a JSON answer, one line per string (see `json_view_lines`).
pub fn format_json_pretty(json: &str) -> (r: Vec<String>)
    ensures
        strs(r@) == json_view_lines(json@),
{
    match parse_json(json) {
        Ok(v) => {
            let p = pretty_json(&v);
            text_lines(p.as_str())
        },
        Err(_) => text_lines(json),
    }
}

/// The popup for a successful `describe-instances` run with output
/// `stdout`: both views filled, the readable one shown, no search; `None`
/// where the readable description cannot be written (see `human_text`).
pub fn info_popup_from_answer(stdout: &str) -> (r: Option<InstanceInfoPopup>)
    ensures
        match r {
            Some(p) => human_text(stdout@) == Some(strs(p.human_lines@)) && strs(p.json_lines@)
                == json_view_lines(stdout@) && !p.loading && p.tab == InfoTab::Human && p.scroll
                == 0 && p.search_query@.len() == 0 && !p.search_active
                && p.search_matches@.len() == 0 && p.search_match_idx == 0,
            None => human_text(stdout@) is None,
        },
{
    let human = match format_instance_human(stdout) {
        Some(h) => h,
        None => return None,
    };
    let json_lines = format_json_pretty(stdout);
    Some(
        InstanceInfoPopup {
            loading: false,
            tab: InfoTab::Human,
            scroll: 0,
            human_lines: human,
            json_lines,
            search_query: String::new(),
            search_active: false,
            search_matches: Vec::new(),
            search_match_idx: 0,
        },
    )
}

/// The popup for a failed description: both views hold `Error: MESSAGE`.
pub fn info_popup_error(message: &str) -> (p: InstanceInfoPopup)
    ensures
        strs(p.human_lines@) == seq!["Error: "@ + message@],
        strs(p.json_lines@) == seq!["Error: "@ + message@],
        !p.loading && p.tab == InfoTab::Human && p.scroll == 0 && p.search_query@.len() == 0
            && !p.search_active && p.search_matches@.len() == 0 && p.search_match_idx == 0,
{
    let mut h: Vec<String> = Vec::new();
    h.push(concat("Error: ", message));
    let mut j: Vec<String> = Vec::new();
    j.push(concat("Error: ", message));
    assert(strs(h@) =~= seq!["Error: "@ + message@]);
    assert(strs(j@) =~= seq!["Error: "@ + message@]);
    InstanceInfoPopup {
        loading: false,
        tab: InfoTab::Human,
        scroll: 0,
        human_lines: h,
        json_lines: j,
        search_query: String::new(),
        search_active: false,
        search_matches: Vec::new(),
        search_match_idx: 0,
    }
}

} // verus!
