//! Reading what the AWS CLI prints for the Containers tab: cluster, service,
//! task and nodegroup descriptions, and the lists of names they are asked for.
use vstd::prelude::*;
use crate::json::{
    Json, JsonV, json_view, get, array_items, jarr_or_empty, jidx, jfield_str, jfield_i64,
    field_str_or, field_i64, string_items, str_items, strs_view,
};
use crate::text::{join, join_strings, last_segment, after_last_slash, str_to_string};
use crate::containers::{EcsCluster, EcsService, EcsTaskData, EcsContainerData, EksCluster, EksNodegroup};

verus! {

/// An optional text, or `d`.
pub open spec fn or_text(o: Option<Seq<char>>, d: Seq<char>) -> Seq<char> {
    match o {
        Some(s) => s,
        None => d,
    }
}

/// An optional integer, or 0.
pub open spec fn or_zero(o: Option<i64>) -> i64 {
    match o {
        Some(n) => n,
        None => 0,
    }
}

/// A string member, or `d`.
pub open spec fn text_of(j: JsonV, k: Seq<char>, d: Seq<char>) -> Seq<char> {
    or_text(jfield_str(j, k), d)
}

/// An integer member, or 0.
pub open spec fn int_of(j: JsonV, k: Seq<char>) -> i64 {
    or_zero(jfield_i64(j, k))
}

fn int_member(j: &Json, k: &str) -> (r: i64)
    ensures
        r == int_of(json_view(*j), k@),
{
    match field_i64(j, k) {
        Some(n) => n,
        None => 0,
    }
}

/// The member `k` of `j`, as a slice of array items (none where it is not an
/// array).
fn items_of<'a>(j: &'a Json, k: &str) -> (r: &'a [Json])
    ensures
        r@.len() == jarr_or_empty(jidx(json_view(*j), k@)).len(),
        forall|t: int|
            0 <= t < r@.len() ==> jarr_or_empty(jidx(json_view(*j), k@))[t] == #[trigger] json_view(
                r@[t],
            ),
{
    match get(j, k) {
        Some(v) => array_items(v),
        None => &[],
    }
}

// ─── ECS ────────────────────────────────────────────────────────────────────
/// `x` is the cluster that description `c` describes.
pub open spec fn ecs_cluster_of(x: EcsCluster, c: JsonV) -> bool {
    &&& x.name@ == text_of(c, "clusterName"@, "unknown"@)
    &&& x.status@ == text_of(c, "status"@, "UNKNOWN"@)
    &&& x.active_services == int_of(c, "activeServicesCount"@)
    &&& x.running_tasks == int_of(c, "runningTasksCount"@)
    &&& x.pending_tasks == int_of(c, "pendingTasksCount"@)
}

/// The clusters of a `describe-clusters` answer, one per element of its
/// `clusters` array.
pub fn ecs_clusters_from(v: &Json) -> (r: Vec<EcsCluster>)
    ensures
        r@.len() == jarr_or_empty(jidx(json_view(*v), "clusters"@)).len(),
        forall|i: int|
            0 <= i < r@.len() ==> ecs_cluster_of(
                #[trigger] r@[i],
                jarr_or_empty(jidx(json_view(*v), "clusters"@))[i],
            ),
{
    let items = items_of(v, "clusters");
    let mut r: Vec<EcsCluster> = Vec::new();
    let mut i: usize = 0;
    while i < items.len()
        invariant
            i <= items@.len(),
            r@.len() == i,
            forall|k: int| 0 <= k < i ==> ecs_cluster_of(#[trigger] r@[k], json_view(items@[k])),
        decreases items@.len() - i,
    {
        let c = &items[i];
        r.push(
            EcsCluster {
                name: field_str_or(c, "clusterName", "unknown"),
                status: field_str_or(c, "status", "UNKNOWN"),
                active_services: int_member(c, "activeServicesCount"),
                running_tasks: int_member(c, "runningTasksCount"),
                pending_tasks: int_member(c, "pendingTasksCount"),
            },
        );
        i = i + 1;
    }
    r
}

/// `x` is the service that description `s` describes; its task definition is
/// the last part of the definition's ARN.
pub open spec fn ecs_service_of(x: EcsService, s: JsonV) -> bool {
    &&& x.name@ == text_of(s, "serviceName"@, "unknown"@)
    &&& x.status@ == text_of(s, "status"@, "UNKNOWN"@)
    &&& x.desired == int_of(s, "desiredCount"@)
    &&& x.running == int_of(s, "runningCount"@)
    &&& x.task_definition@ == last_segment(text_of(s, "taskDefinition"@, ""@))
}

/// The services of a `describe-services` answer.
pub fn ecs_services_from(v: &Json) -> (r: Vec<EcsService>)
    ensures
        r@.len() == jarr_or_empty(jidx(json_view(*v), "services"@)).len(),
        forall|i: int|
            0 <= i < r@.len() ==> ecs_service_of(
                #[trigger] r@[i],
                jarr_or_empty(jidx(json_view(*v), "services"@))[i],
            ),
{
    let items = items_of(v, "services");
    let mut r: Vec<EcsService> = Vec::new();
    let mut i: usize = 0;
    while i < items.len()
        invariant
            i <= items@.len(),
            r@.len() == i,
            forall|k: int| 0 <= k < i ==> ecs_service_of(#[trigger] r@[k], json_view(items@[k])),
        decreases items@.len() - i,
    {
        let s = &items[i];
        let td_full = field_str_or(s, "taskDefinition", "");
        r.push(
            EcsService {
                name: field_str_or(s, "serviceName", "unknown"),
                status: field_str_or(s, "status", "UNKNOWN"),
                desired: int_member(s, "desiredCount"),
                running: int_member(s, "runningCount"),
                task_definition: after_last_slash(td_full.as_str()),
            },
        );
        i = i + 1;
    }
    r
}

/// `x` is the container that description `c` describes.
pub open spec fn ecs_container_of(x: EcsContainerData, c: JsonV) -> bool {
    &&& x.name@ == text_of(c, "name"@, "?"@)
    &&& x.image@ == text_of(c, "image"@, ""@)
    &&& x.status@ == text_of(c, "lastStatus"@, "UNKNOWN"@)
}

/// `x` is the task that description `t` describes: its id is the last part
/// of its ARN, and it holds one container per element of `containers`.
pub open spec fn ecs_task_of(x: EcsTaskData, t: JsonV) -> bool {
    &&& x.task_id@ == last_segment(text_of(t, "taskArn"@, ""@))
    &&& x.status@ == text_of(t, "lastStatus"@, "UNKNOWN"@)
    &&& x.launch_type@ == text_of(t, "launchType"@, ""@)
    &&& x.task_definition@ == last_segment(text_of(t, "taskDefinitionArn"@, ""@))
    &&& x.containers@.len() == jarr_or_empty(jidx(t, "containers"@)).len()
    &&& forall|i: int|
        0 <= i < x.containers@.len() ==> ecs_container_of(
            #[trigger] x.containers@[i],
            jarr_or_empty(jidx(t, "containers"@))[i],
        )
}

fn ecs_task_from(t: &Json) -> (r: EcsTaskData)
    ensures
        ecs_task_of(r, json_view(*t)),
{
    let items = items_of(t, "containers");
    let mut containers: Vec<EcsContainerData> = Vec::new();
    let mut i: usize = 0;
    while i < items.len()
        invariant
            i <= items@.len(),
            containers@.len() == i,
            forall|k: int|
                0 <= k < i ==> ecs_container_of(#[trigger] containers@[k], json_view(items@[k])),
        decreases items@.len() - i,
    {
        let c = &items[i];
        containers.push(
            EcsContainerData {
                name: field_str_or(c, "name", "?"),
                image: field_str_or(c, "image", ""),
                status: field_str_or(c, "lastStatus", "UNKNOWN"),
            },
        );
        i = i + 1;
    }
    let arn = field_str_or(t, "taskArn", "");
    let td_full = field_str_or(t, "taskDefinitionArn", "");
    EcsTaskData {
        task_id: after_last_slash(arn.as_str()),
        status: field_str_or(t, "lastStatus", "UNKNOWN"),
        launch_type: field_str_or(t, "launchType", ""),
        task_definition: after_last_slash(td_full.as_str()),
        containers,
    }
}

/// The tasks of a `describe-tasks` answer.
pub fn ecs_tasks_from(v: &Json) -> (r: Vec<EcsTaskData>)
    ensures
        r@.len() == jarr_or_empty(jidx(json_view(*v), "tasks"@)).len(),
        forall|i: int|
            0 <= i < r@.len() ==> ecs_task_of(
                #[trigger] r@[i],
                jarr_or_empty(jidx(json_view(*v), "tasks"@))[i],
            ),
{
    let items = items_of(v, "tasks");
    let mut r: Vec<EcsTaskData> = Vec::new();
    let mut i: usize = 0;
    while i < items.len()
        invariant
            i <= items@.len(),
            r@.len() == i,
            forall|k: int| 0 <= k < i ==> ecs_task_of(#[trigger] r@[k], json_view(items@[k])),
        decreases items@.len() - i,
    {
        r.push(ecs_task_from(&items[i]));
        i = i + 1;
    }
    r
}

// ─── EKS ────────────────────────────────────────────────────────────────────
/// `x` is the cluster that a `describe-cluster` answer `v` for cluster `name`
/// describes.
pub open spec fn eks_cluster_of(x: EksCluster, v: JsonV, name: Seq<char>) -> bool {
    let c = jidx(v, "cluster"@);
    &&& x.name@ == text_of(c, "name"@, name)
    &&& x.status@ == text_of(c, "status"@, "UNKNOWN"@)
    &&& x.version@ == text_of(c, "version"@, "?"@)
}

/// The cluster of a `describe-cluster` answer for cluster `name`.
pub fn eks_cluster_from(v: &Json, name: &str) -> (r: EksCluster)
    ensures
        eks_cluster_of(r, json_view(*v), name@),
{
    let null = Json::Null;
    let c = match get(v, "cluster") {
        Some(c) => c,
        None => &null,
    };
    EksCluster {
        name: field_str_or(c, "name", name),
        status: field_str_or(c, "status", "UNKNOWN"),
        version: field_str_or(c, "version", "?"),
    }
}

/// The instance types of a nodegroup, joined with `, `, or `?` where there
/// are none.
pub open spec fn types_text(types: Seq<Seq<char>>) -> Seq<char> {
    if types.len() == 0 {
        "?"@
    } else {
        join(types, ", "@)
    }
}

/// `x` is the nodegroup that a `describe-nodegroup` answer `v` for nodegroup
/// `name` describes.
pub open spec fn eks_nodegroup_of(x: EksNodegroup, v: JsonV, name: Seq<char>) -> bool {
    let ng = jidx(v, "nodegroup"@);
    let scaling = jidx(ng, "scalingConfig"@);
    &&& x.name@ == text_of(ng, "nodegroupName"@, name)
    &&& x.status@ == text_of(ng, "status"@, "UNKNOWN"@)
    &&& x.desired == int_of(scaling, "desiredSize"@)
    &&& x.min == int_of(scaling, "minSize"@)
    &&& x.max == int_of(scaling, "maxSize"@)
    &&& x.instance_types@ == types_text(str_items(jarr_or_empty(jidx(ng, "instanceTypes"@))))
}

/// The nodegroup of a `describe-nodegroup` answer for nodegroup `name`.
pub fn eks_nodegroup_from(v: &Json, name: &str) -> (r: EksNodegroup)
    ensures
        eks_nodegroup_of(r, json_view(*v), name@),
{
    let null = Json::Null;
    let ng = match get(v, "nodegroup") {
        Some(c) => c,
        None => &null,
    };
    let null2 = Json::Null;
    let scaling = match get(ng, "scalingConfig") {
        Some(c) => c,
        None => &null2,
    };
    let types = string_items(ng, "instanceTypes");
    let instance_types = if types.len() == 0 {
        str_to_string("?")
    } else {
        let t = join_strings(&types, ", ");
        assert(Seq::new(types@.len(), |i: int| types@[i]@) =~= strs_view(types@));
        t
    };
    EksNodegroup {
        name: field_str_or(ng, "nodegroupName", name),
        status: field_str_or(ng, "status", "UNKNOWN"),
        desired: int_member(scaling, "desiredSize"),
        min: int_member(scaling, "minSize"),
        max: int_member(scaling, "maxSize"),
        instance_types,
    }
}

// ─── Lists of names ─────────────────────────────────────────────────────────
/// The names (or ARNs) that a `list-*` answer gives under key `k`.
pub fn names_from(v: &Json, k: &str) -> (r: Vec<String>)
    ensures
        strs_view(r@) == str_items(jarr_or_empty(jidx(json_view(*v), k@))),
{
    string_items(v, k)
}

/// `s` cut into pieces of `size` items, the last one possibly shorter
/// (`slice::chunks`).
pub open spec fn chunks_of(s: Seq<Seq<char>>, size: nat) -> Seq<Seq<Seq<char>>>
    decreases s.len(),
{
    if s.len() == 0 || size == 0 {
        Seq::empty()
    } else if s.len() <= size {
        seq![s]
    } else {
        seq![s.take(size as int)] + chunks_of(s.skip(size as int), size)
    }
}

/// Cuts a list of names into pieces of at most `size`, in order, for
/// commands that take a bounded number of names.
pub fn chunks(items: &Vec<String>, size: usize) -> (r: Vec<Vec<String>>)
    requires
        size > 0,
    ensures
        Seq::new(r@.len(), |i: int| strs_view(r@[i]@)) == chunks_of(strs_view(items@), size as nat),
{
    let ghost all = strs_view(items@);
    let mut r: Vec<Vec<String>> = Vec::new();
    let mut pos: usize = 0;
    assert(all.skip(0) =~= all);
    assert(Seq::new(r@.len(), |i: int| strs_view(r@[i]@)) =~= Seq::<Seq<Seq<char>>>::empty());
    assert(Seq::<Seq<Seq<char>>>::empty() + chunks_of(all, size as nat) =~= chunks_of(all, size as nat));
    while pos < items.len()
        invariant
            pos <= items@.len(),
            all == strs_view(items@),
            size > 0,
            Seq::new(r@.len(), |i: int| strs_view(r@[i]@)) + chunks_of(all.skip(pos as int), size as nat)
                == chunks_of(all, size as nat),
        decreases items@.len() - pos,
    {
        let n = items.len();
        let end = if n - pos <= size {
            n
        } else {
            pos + size
        };
        let mut chunk: Vec<String> = Vec::new();
        let mut k = pos;
        while k < end
            invariant
                pos <= k <= end <= items@.len(),
                all == strs_view(items@),
                strs_view(chunk@) == all.subrange(pos as int, k as int),
            decreases end - k,
        {
            let ghost before = chunk@;
            chunk.push(items[k].clone());
            assert(strs_view(chunk@) =~= strs_view(before).push(items@[k as int]@));
            assert(all.subrange(pos as int, k + 1) =~= all.subrange(pos as int, k as int).push(all[k as int]));
            k = k + 1;
        }
        let ghost rest = all.skip(pos as int);
        let ghost before = Seq::new(r@.len(), |i: int| strs_view(r@[i]@));
        r.push(chunk);
        assert(Seq::new(r@.len(), |i: int| strs_view(r@[i]@)) =~= before.push(all.subrange(pos as int, end as int)));
        if n - pos <= size {
            assert(rest =~= all.subrange(pos as int, end as int));
            assert(all.skip(end as int) =~= Seq::<Seq<char>>::empty());
            assert(chunks_of(rest, size as nat) == seq![rest]);
        } else {
            assert(rest.take(size as int) =~= all.subrange(pos as int, end as int));
            assert(rest.skip(size as int) =~= all.skip(end as int));
        }
        assert(Seq::new(r@.len(), |i: int| strs_view(r@[i]@)) + chunks_of(all.skip(end as int), size as nat)
            =~= before + chunks_of(rest, size as nat));
        pos = end;
    }
    assert(all.skip(pos as int) =~= Seq::<Seq<char>>::empty());
    assert(Seq::new(r@.len(), |i: int| strs_view(r@[i]@)) + Seq::<Seq<Seq<char>>>::empty()
        =~= Seq::new(r@.len(), |i: int| strs_view(r@[i]@)));
    r
}

} // verus!
