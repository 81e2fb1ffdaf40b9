//! The Containers tab: an expandable ECS tree (clusters, services, tasks,
//! containers), EKS clusters and nodegroups, and the profile/region they are
//! fetched for.
use vstd::prelude::*;
use crate::text::{signed_decimal, i64_to_dec, push_str, str_to_string, str_eq};
use crate::instances::{regions_list, region_names};

verus! {

// ─── Sub-tab & focus ────────────────────────────────────────────────────────
/// The two views of the tab.
#[derive(Debug, Clone, Copy, PartialEq, Eq, Structural)]
pub enum ContainersSubTab {
    Ecs,
    Eks,
}

/// Which pane has the keyboard.
#[derive(Debug, Clone, Copy, PartialEq, Eq, Structural)]
pub enum ContainersFocus {
    RegionList,
    SubTabBar,
    ClusterList,
    DetailList,
}

// ─── ECS tree ───────────────────────────────────────────────────────────────
/// The level of an ECS tree row.
#[derive(Debug, Clone, Copy, PartialEq, Eq, Structural)]
pub enum EcsTreeItemKind {
    Cluster,
    Service,
    Task,
    Container,
}

/// One row of the ECS tree.
#[derive(Debug, Clone)]
pub struct EcsTreeItem {
    pub kind: EcsTreeItemKind,
    pub depth: u8,
    pub name: String,
    pub status: String,
    pub expanded: bool,
    pub loading: bool,
    /// Set for services, tasks and containers.
    pub cluster_name: String,
    /// Set for tasks and containers.
    pub service_name: String,
    /// Set for tasks (FARGATE/EC2).
    pub launch_type: String,
    /// Other text shown with the row.
    pub extra: String,
    /// Running count for a service, running tasks for a cluster.
    pub count_a: i64,
    /// Desired count for a service, pending tasks for a cluster.
    pub count_b: i64,
}

/// The value of an `EcsTreeItem`.
pub struct EcsTreeItemV {
    pub kind: EcsTreeItemKind,
    pub depth: u8,
    pub name: Seq<char>,
    pub status: Seq<char>,
    pub expanded: bool,
    pub loading: bool,
    pub cluster_name: Seq<char>,
    pub service_name: Seq<char>,
    pub launch_type: Seq<char>,
    pub extra: Seq<char>,
    pub count_a: i64,
    pub count_b: i64,
}

impl EcsTreeItem {
    pub open spec fn view(&self) -> EcsTreeItemV {
        EcsTreeItemV {
            kind: self.kind,
            depth: self.depth,
            name: self.name@,
            status: self.status@,
            expanded: self.expanded,
            loading: self.loading,
            cluster_name: self.cluster_name@,
            service_name: self.service_name@,
            launch_type: self.launch_type@,
            extra: self.extra@,
            count_a: self.count_a,
            count_b: self.count_b,
        }
    }
}

/// The values of the rows of a tree.
pub open spec fn tree_view(t: Seq<EcsTreeItem>) -> Seq<EcsTreeItemV> {
    Seq::new(t.len(), |i: int| t[i].view())
}

// ─── Fetched data ───────────────────────────────────────────────────────────
/// An ECS cluster as described by the AWS CLI.
#[derive(Debug, Clone)]
pub struct EcsCluster {
    pub name: String,
    pub status: String,
    pub active_services: i64,
    pub running_tasks: i64,
    pub pending_tasks: i64,
}

/// An ECS service as described by the AWS CLI.
#[derive(Debug, Clone)]
pub struct EcsService {
    pub name: String,
    pub status: String,
    pub desired: i64,
    pub running: i64,
    pub task_definition: String,
}

/// An ECS task as described by the AWS CLI.
#[derive(Debug, Clone)]
pub struct EcsTaskData {
    pub task_id: String,
    pub status: String,
    pub launch_type: String,
    pub task_definition: String,
    pub containers: Vec<EcsContainerData>,
}

/// A container of an ECS task.
#[derive(Debug, Clone)]
pub struct EcsContainerData {
    pub name: String,
    pub image: String,
    pub status: String,
}

/// An EKS cluster.
#[derive(Debug, Clone)]
pub struct EksCluster {
    pub name: String,
    pub status: String,
    pub version: String,
}

/// An EKS nodegroup.
#[derive(Debug, Clone)]
pub struct EksNodegroup {
    pub name: String,
    pub status: String,
    pub desired: i64,
    pub min: i64,
    pub max: i64,
    pub instance_types: String,
}

/// The result of a background fetch.
pub enum FetchResult {
    EcsClusters(Vec<EcsCluster>),
    /// A cluster's name and its services.
    EcsServices(String, Vec<EcsService>),
    /// A cluster's and a service's names and the service's tasks.
    EcsTasks(String, String, Vec<EcsTaskData>),
    EksClusters(Vec<EksCluster>),
    /// A cluster's name and its nodegroups.
    EksNodegroups(String, Vec<EksNodegroup>),
    Error(String),
}

/// A fetch the state asks to be run in the background.
#[derive(Debug, Clone)]
pub enum FetchRequest {
    EcsClusters { profile: String, region: String },
    EcsServices { profile: String, region: String, cluster: String },
    EcsTasks { profile: String, region: String, cluster: String, service: String },
    EksClusters { profile: String, region: String },
    EksNodegroups { profile: String, region: String, cluster: String },
}

// ─── Rows built from fetched data ───────────────────────────────────────────
/// The row of a cluster.
pub open spec fn cluster_row(c: EcsCluster) -> EcsTreeItemV {
    EcsTreeItemV {
        kind: EcsTreeItemKind::Cluster,
        depth: 0,
        name: c.name@,
        status: c.status@,
        expanded: false,
        loading: false,
        cluster_name: Seq::empty(),
        service_name: Seq::empty(),
        launch_type: Seq::empty(),
        extra: signed_decimal(c.active_services as int) + " svc  "@ + signed_decimal(
            c.running_tasks as int,
        ) + " run"@,
        count_a: c.running_tasks,
        count_b: c.pending_tasks,
    }
}

/// The row of a service of cluster `cluster`.
pub open spec fn service_row(s: EcsService, cluster: Seq<char>) -> EcsTreeItemV {
    EcsTreeItemV {
        kind: EcsTreeItemKind::Service,
        depth: 1,
        name: s.name@,
        status: s.status@,
        expanded: false,
        loading: false,
        cluster_name: cluster,
        service_name: Seq::empty(),
        launch_type: Seq::empty(),
        extra: s.task_definition@,
        count_a: s.running,
        count_b: s.desired,
    }
}

/// The row of a task of service `service` in cluster `cluster`.
pub open spec fn task_row(t: EcsTaskData, cluster: Seq<char>, service: Seq<char>) -> EcsTreeItemV {
    EcsTreeItemV {
        kind: EcsTreeItemKind::Task,
        depth: 2,
        name: t.task_id@,
        status: t.status@,
        expanded: false,
        loading: false,
        cluster_name: cluster,
        service_name: service,
        launch_type: t.launch_type@,
        extra: t.task_definition@,
        count_a: 0,
        count_b: 0,
    }
}

/// The row of a container of a task.
pub open spec fn container_row(c: EcsContainerData, cluster: Seq<char>, service: Seq<char>) -> EcsTreeItemV {
    EcsTreeItemV {
        kind: EcsTreeItemKind::Container,
        depth: 3,
        name: c.name@,
        status: c.status@,
        expanded: false,
        loading: false,
        cluster_name: cluster,
        service_name: service,
        launch_type: Seq::empty(),
        extra: c.image@,
        count_a: 0,
        count_b: 0,
    }
}

/// The rows of a task: the task, then each of its containers.
pub open spec fn task_rows(t: EcsTaskData, cluster: Seq<char>, service: Seq<char>) -> Seq<EcsTreeItemV> {
    seq![task_row(t, cluster, service)] + Seq::new(
        t.containers@.len(),
        |i: int| container_row(t.containers@[i], cluster, service),
    )
}

/// The rows of a list of tasks, one after another.
pub open spec fn tasks_rows(ts: Seq<EcsTaskData>, cluster: Seq<char>, service: Seq<char>) -> Seq<EcsTreeItemV>
    decreases ts.len(),
{
    if ts.len() == 0 {
        Seq::empty()
    } else {
        tasks_rows(ts.drop_last(), cluster, service) + task_rows(ts.last(), cluster, service)
    }
}

fn clone_string(s: &String) -> (r: String)
    ensures
        r@ == s@,
{
    s.clone()
}

fn make_cluster_row(c: &EcsCluster) -> (r: EcsTreeItem)
    ensures
        r.view() == cluster_row(*c),
{
    let mut extra = i64_to_dec(c.active_services);
    push_str(&mut extra, " svc  ");
    let run = i64_to_dec(c.running_tasks);
    push_str(&mut extra, run.as_str());
    push_str(&mut extra, " run");
    EcsTreeItem {
        kind: EcsTreeItemKind::Cluster,
        depth: 0,
        name: clone_string(&c.name),
        status: clone_string(&c.status),
        expanded: false,
        loading: false,
        cluster_name: String::new(),
        service_name: String::new(),
        launch_type: String::new(),
        extra,
        count_a: c.running_tasks,
        count_b: c.pending_tasks,
    }
}

fn make_service_row(s: &EcsService, cluster: &String) -> (r: EcsTreeItem)
    ensures
        r.view() == service_row(*s, cluster@),
{
    EcsTreeItem {
        kind: EcsTreeItemKind::Service,
        depth: 1,
        name: clone_string(&s.name),
        status: clone_string(&s.status),
        expanded: false,
        loading: false,
        cluster_name: clone_string(cluster),
        service_name: String::new(),
        launch_type: String::new(),
        extra: clone_string(&s.task_definition),
        count_a: s.running,
        count_b: s.desired,
    }
}

fn make_task_rows(t: &EcsTaskData, cluster: &String, service: &String) -> (r: Vec<EcsTreeItem>)
    ensures
        tree_view(r@) == task_rows(*t, cluster@, service@),
{
    let mut r: Vec<EcsTreeItem> = Vec::new();
    r.push(
        EcsTreeItem {
            kind: EcsTreeItemKind::Task,
            depth: 2,
            name: clone_string(&t.task_id),
            status: clone_string(&t.status),
            expanded: false,
            loading: false,
            cluster_name: clone_string(cluster),
            service_name: clone_string(service),
            launch_type: clone_string(&t.launch_type),
            extra: clone_string(&t.task_definition),
            count_a: 0,
            count_b: 0,
        },
    );
    let mut i: usize = 0;
    while i < t.containers.len()
        invariant
            i <= t.containers@.len(),
            r@.len() == i + 1,
            r@[0].view() == task_row(*t, cluster@, service@),
            forall|k: int|
                0 <= k < i ==> (#[trigger] r@[k + 1]).view() == container_row(
                    t.containers@[k],
                    cluster@,
                    service@,
                ),
        decreases t.containers@.len() - i,
    {
        let c = &t.containers[i];
        r.push(
            EcsTreeItem {
                kind: EcsTreeItemKind::Container,
                depth: 3,
                name: clone_string(&c.name),
                status: clone_string(&c.status),
                expanded: false,
                loading: false,
                cluster_name: clone_string(cluster),
                service_name: clone_string(service),
                launch_type: String::new(),
                extra: clone_string(&c.image),
                count_a: 0,
                count_b: 0,
            },
        );
        i = i + 1;
    }
    assert(tree_view(r@) =~= task_rows(*t, cluster@, service@)) by {
        assert forall|k: int| 0 <= k < r@.len() implies tree_view(r@)[k] == task_rows(
            *t,
            cluster@,
            service@,
        )[k] by {
            if k > 0 {
                assert(r@[(k - 1) + 1] == r@[k]);
            }
        }
    }
    r
}

// ─── Subtrees ───────────────────────────────────────────────────────────────
/// End of the rows below row `idx` that are deeper than it, scanning from `j`.
pub open spec fn subtree_end_from(t: Seq<EcsTreeItemV>, depth: u8, j: int) -> int
    decreases t.len() - j,
{
    if 0 <= j < t.len() && t[j].depth > depth {
        subtree_end_from(t, depth, j + 1)
    } else {
        j
    }
}

/// One past the last descendant of row `idx` (the rows after it that are
/// deeper than it).
pub open spec fn subtree_end(t: Seq<EcsTreeItemV>, idx: int) -> int {
    subtree_end_from(t, t[idx].depth, idx + 1)
}

/// Where the rows deeper than `depth` that follow row `j - 1` end.
pub proof fn lemma_subtree_end_from(t: Seq<EcsTreeItemV>, depth: u8, j: int)
    requires
        0 <= j <= t.len(),
    ensures
        j <= subtree_end_from(t, depth, j) <= t.len(),
        forall|k: int| j <= k < subtree_end_from(t, depth, j) ==> (#[trigger] t[k]).depth > depth,
        subtree_end_from(t, depth, j) < t.len() ==> t[subtree_end_from(t, depth, j)].depth
            <= depth,
    decreases t.len() - j,
{
    if j < t.len() && t[j].depth > depth {
        lemma_subtree_end_from(t, depth, j + 1);
    }
}

/// The tree with the descendants of row `idx` replaced by `children`.
pub open spec fn with_children(t: Seq<EcsTreeItemV>, idx: int, children: Seq<EcsTreeItemV>) -> Seq<EcsTreeItemV> {
    t.take(idx + 1) + children + t.skip(subtree_end(t, idx))
}

/// The selection clamped into a tree of `len` rows.
pub open spec fn clamp_sel(sel: nat, len: nat) -> nat {
    if sel >= len {
        if len == 0 {
            0
        } else {
            (len - 1) as nat
        }
    } else {
        sel
    }
}

/// A row marked expanded (or not) and not loading.
pub open spec fn set_open(r: EcsTreeItemV, expanded: bool) -> EcsTreeItemV {
    EcsTreeItemV { expanded, loading: false, ..r }
}

/// A row marked as loading.
pub open spec fn set_loading(r: EcsTreeItemV, loading: bool) -> EcsTreeItemV {
    EcsTreeItemV { loading, ..r }
}

/// The first row at or after `i` of kind `kind` with name `name` (and, when
/// given, cluster `cluster`).
pub open spec fn find_row_from(t: Seq<EcsTreeItemV>, kind: EcsTreeItemKind, name: Seq<char>, cluster: Option<Seq<char>>, i: int) -> Option<int>
    decreases t.len() - i,
{
    if i < 0 || i >= t.len() {
        None
    } else if t[i].kind == kind && t[i].name == name && (match cluster {
        Some(c) => t[i].cluster_name == c,
        None => true,
    }) {
        Some(i)
    } else {
        find_row_from(t, kind, name, cluster, i + 1)
    }
}

// ─── State ──────────────────────────────────────────────────────────────────
/// The Containers tab's state.
pub struct ContainersState {
    pub profiles: Vec<String>,
    pub active_profile_idx: usize,
    pub region_idx: usize,
    pub regions: Vec<String>,
    pub region_dropdown_open: bool,
    pub sub_tab: ContainersSubTab,
    pub focus: ContainersFocus,
    pub ecs_tree: Vec<EcsTreeItem>,
    pub selected_ecs_tree: usize,
    pub loading_ecs_clusters: bool,
    pub eks_clusters: Vec<EksCluster>,
    pub selected_eks_cluster: usize,
    pub loading_eks_clusters: bool,
    pub eks_nodegroups: Vec<EksNodegroup>,
    pub selected_eks_nodegroup: usize,
    pub loading_eks_nodegroups: bool,
    pub eks_nodegroups_for: String,
    pub last_error: Option<String>,
}

/// The tab after `next_profile`.
pub open spec fn cont_profile_next(o: ContainersState, n: ContainersState) -> bool {
    &&& n.active_profile_idx == (if o.profiles@.len() > 0 {
        ((o.active_profile_idx + 1) % (o.profiles@.len() as int)) as usize
    } else {
        o.active_profile_idx
    })
    &&& n == (ContainersState { active_profile_idx: n.active_profile_idx, ..o })
}

/// The tab after `prev_profile`.
pub open spec fn cont_profile_prev(o: ContainersState, n: ContainersState) -> bool {
    &&& n.active_profile_idx == (if o.profiles@.len() == 0 {
        o.active_profile_idx
    } else if o.active_profile_idx == 0 {
        (o.profiles@.len() - 1) as usize
    } else {
        (o.active_profile_idx - 1) as usize
    })
    &&& n == (ContainersState { active_profile_idx: n.active_profile_idx, ..o })
}

/// The tab after `next_region`.
pub open spec fn cont_region_next(o: ContainersState, n: ContainersState) -> bool {
    &&& n.region_idx == ((o.region_idx + 1) % (o.regions@.len() as int)) as usize
    &&& n == (ContainersState { region_idx: n.region_idx, ..o })
}

/// The tab after `prev_region`.
pub open spec fn cont_region_prev(o: ContainersState, n: ContainersState) -> bool {
    &&& n.region_idx == (if o.region_idx == 0 {
        (o.regions@.len() - 1) as usize
    } else {
        (o.region_idx - 1) as usize
    })
    &&& n == (ContainersState { region_idx: n.region_idx, ..o })
}

impl ContainersState {
    /// The state is well formed: the region index points into the regions,
    /// the ECS selection into the tree (or is 0 for an empty tree).
    pub open spec fn wf(&self) -> bool {
        &&& self.region_idx < self.regions@.len()
        &&& (self.selected_ecs_tree < self.ecs_tree@.len() || (self.ecs_tree@.len() == 0
            && self.selected_ecs_tree == 0))
    }

    /// A fresh state: no profiles, region `us-west-2`, the ECS view focused on
    /// the region list, nothing loaded.
    /// No profiles yet, the fourth region of `region_names` chosen, the ECS
    /// sub-tab shown with the region list focused, nothing listed or loading.
    pub open spec fn fresh(&self) -> bool {
        &&& self.profiles@.len() == 0 && self.active_profile_idx == 0
        &&& self.region_idx == 3
        &&& self.regions@.len() == 18
        &&& forall|i: int| 0 <= i < 18 ==> (#[trigger] self.regions@[i])@ == region_names()[i]
        &&& self.sub_tab == ContainersSubTab::Ecs
        &&& self.focus == ContainersFocus::RegionList
        &&& self.ecs_tree@.len() == 0
        &&& self.eks_clusters@.len() == 0
        &&& self.eks_nodegroups@.len() == 0
        &&& self.selected_ecs_tree == 0 && self.selected_eks_cluster == 0 && self.selected_eks_nodegroup == 0
        &&& !self.loading_ecs_clusters && !self.loading_eks_clusters && !self.loading_eks_nodegroups
        &&& !self.region_dropdown_open
        &&& self.eks_nodegroups_for@.len() == 0
        &&& self.last_error is None
    }

    /// A fresh Containers tab (see `fresh`).
    pub fn new() -> (s: Self)
        ensures
            s.wf(),
            s.fresh(),
    {
        ContainersState {
            profiles: Vec::new(),
            active_profile_idx: 0,
            region_idx: 3,
            regions: regions_list(),
            region_dropdown_open: false,
            sub_tab: ContainersSubTab::Ecs,
            focus: ContainersFocus::RegionList,
            ecs_tree: Vec::new(),
            selected_ecs_tree: 0,
            loading_ecs_clusters: false,
            eks_clusters: Vec::new(),
            selected_eks_cluster: 0,
            loading_eks_clusters: false,
            eks_nodegroups: Vec::new(),
            selected_eks_nodegroup: 0,
            loading_eks_nodegroups: false,
            eks_nodegroups_for: String::new(),
            last_error: None,
        }
    }

    /// The selected profile, if any.
    pub fn active_profile(&self) -> (r: Option<&String>)
        ensures
            match r {
                Some(p) => self.active_profile_idx < self.profiles@.len() && *p
                    == self.profiles@[self.active_profile_idx as int],
                None => self.active_profile_idx >= self.profiles@.len(),
            },
    {
        if self.active_profile_idx < self.profiles.len() {
            Some(&self.profiles[self.active_profile_idx])
        } else {
            None
        }
    }

    /// The selected region.
    pub fn active_region(&self) -> (r: &String)
        requires
            self.region_idx < self.regions@.len(),
        ensures
            *r == self.regions@[self.region_idx as int],
    {
        &self.regions[self.region_idx]
    }

    /// The next profile, wrapping around.
    pub fn next_profile(&mut self)
        ensures
            cont_profile_next(*old(self), *final(self)),
    {
        if self.profiles.len() > 0 {
            self.active_profile_idx = ((self.active_profile_idx as u128 + 1) % (self.profiles.len() as u128)) as usize;
        }
    }

    /// The previous profile, wrapping around.
    pub fn prev_profile(&mut self)
        ensures
            cont_profile_prev(*old(self), *final(self)),
    {
        if self.profiles.len() > 0 {
            self.active_profile_idx = if self.active_profile_idx == 0 {
                self.profiles.len() - 1
            } else {
                self.active_profile_idx - 1
            };
        }
    }

    /// The next region, wrapping around.
    pub fn next_region(&mut self)
        requires
            old(self).regions@.len() > 0,
        ensures
            cont_region_next(*old(self), *final(self)),
    {
        self.region_idx = ((self.region_idx as u128 + 1) % (self.regions.len() as u128)) as usize;
    }

    /// The previous region, wrapping around.
    pub fn prev_region(&mut self)
        requires
            old(self).regions@.len() > 0,
        ensures
            cont_region_prev(*old(self), *final(self)),
    {
        self.region_idx = if self.region_idx == 0 {
            self.regions.len() - 1
        } else {
            self.region_idx - 1
        };
    }

    /// The next ECS row, wrapping around.
    pub fn ecs_next_item(&mut self)
        ensures
            final(self).selected_ecs_tree == (if old(self).ecs_tree@.len() > 0 {
                ((old(self).selected_ecs_tree + 1) % (old(self).ecs_tree@.len() as int)) as usize
            } else {
                old(self).selected_ecs_tree
            }),
            *final(self) == (ContainersState { selected_ecs_tree: final(self).selected_ecs_tree, ..*old(self) }),
    {
        if self.ecs_tree.len() > 0 {
            self.selected_ecs_tree = ((self.selected_ecs_tree as u128 + 1) % (self.ecs_tree.len() as u128)) as usize;
        }
    }

    /// The previous ECS row, wrapping around.
    pub fn ecs_prev_item(&mut self)
        ensures
            final(self).selected_ecs_tree == (if old(self).ecs_tree@.len() == 0 {
                old(self).selected_ecs_tree
            } else if old(self).selected_ecs_tree == 0 {
                (old(self).ecs_tree@.len() - 1) as usize
            } else {
                (old(self).selected_ecs_tree - 1) as usize
            }),
            *final(self) == (ContainersState { selected_ecs_tree: final(self).selected_ecs_tree, ..*old(self) }),
    {
        if self.ecs_tree.len() > 0 {
            self.selected_ecs_tree = if self.selected_ecs_tree == 0 {
                self.ecs_tree.len() - 1
            } else {
                self.selected_ecs_tree - 1
            };
        }
    }

    /// Removes the descendants of row `idx` and puts `children` in their place;
    /// the selection is clamped into the new tree.
    pub fn ecs_insert_children(&mut self, idx: usize, children: Vec<EcsTreeItem>)
        requires
            idx < old(self).ecs_tree@.len(),
        ensures
            tree_view(final(self).ecs_tree@) == with_children(
                tree_view(old(self).ecs_tree@),
                idx as int,
                tree_view(children@),
            ),
            final(self).selected_ecs_tree == clamp_sel(
                old(self).selected_ecs_tree as nat,
                final(self).ecs_tree@.len(),
            ),
            *final(self) == (ContainersState {
                ecs_tree: final(self).ecs_tree,
                selected_ecs_tree: final(self).selected_ecs_tree,
                ..*old(self)
            }),
    {
        let ghost t = tree_view(self.ecs_tree@);
        let n = self.ecs_tree.len();
        let depth = self.ecs_tree[idx].depth;
        let start = idx + 1;
        let mut end = start;
        proof {
            lemma_subtree_end_from(t, depth, start as int);
        }
        while end < self.ecs_tree.len() && self.ecs_tree[end].depth > depth
            invariant
                start <= end <= self.ecs_tree@.len(),
                t == tree_view(self.ecs_tree@),
                subtree_end_from(t, depth, start as int) == subtree_end_from(t, depth, end as int),
            decreases self.ecs_tree@.len() - end,
        {
            assert(t[end as int] == self.ecs_tree@[end as int].view());
            end = end + 1;
        }
        if end < self.ecs_tree.len() {
            assert(t[end as int] == self.ecs_tree@[end as int].view());
        }
        let ghost old_tree = self.ecs_tree@;
        let mut tail = self.ecs_tree.split_off(start);
        let mut rest = tail.split_off(end - start);
        let mut children = children;
        let ghost ch = children@;
        self.ecs_tree.append(&mut children);
        self.ecs_tree.append(&mut rest);
        proof {
            assert(self.ecs_tree@ =~= old_tree.subrange(0, start as int) + ch + old_tree.subrange(
                end as int,
                old_tree.len() as int,
            ));
            assert(tree_view(self.ecs_tree@) =~= with_children(t, idx as int, tree_view(ch)));
        }
        if self.selected_ecs_tree >= self.ecs_tree.len() {
            self.selected_ecs_tree = if self.ecs_tree.len() == 0 {
                0
            } else {
                self.ecs_tree.len() - 1
            };
        }
    }

    /// Collapses row `idx`: its descendants are removed and it is marked not
    /// expanded; the selection is clamped into the new tree.
    pub fn ecs_collapse_at(&mut self, idx: usize)
        requires
            idx < old(self).ecs_tree@.len(),
        ensures
            tree_view(final(self).ecs_tree@) == {
                let t = tree_view(old(self).ecs_tree@);
                t.take(idx as int) + seq![EcsTreeItemV { expanded: false, ..t[idx as int] }]
                    + t.skip(subtree_end(t, idx as int))
            },
            final(self).selected_ecs_tree == clamp_sel(
                old(self).selected_ecs_tree as nat,
                final(self).ecs_tree@.len(),
            ),
            *final(self) == (ContainersState {
                ecs_tree: final(self).ecs_tree,
                selected_ecs_tree: final(self).selected_ecs_tree,
                ..*old(self)
            }),
    {
        let ghost t = tree_view(self.ecs_tree@);
        let n = self.ecs_tree.len();
        let depth = self.ecs_tree[idx].depth;
        let start = idx + 1;
        let mut end = start;
        proof {
            lemma_subtree_end_from(t, depth, start as int);
        }
        while end < self.ecs_tree.len() && self.ecs_tree[end].depth > depth
            invariant
                start <= end <= self.ecs_tree@.len(),
                t == tree_view(self.ecs_tree@),
                subtree_end_from(t, depth, start as int) == subtree_end_from(t, depth, end as int),
            decreases self.ecs_tree@.len() - end,
        {
            assert(t[end as int] == self.ecs_tree@[end as int].view());
            end = end + 1;
        }
        if end < self.ecs_tree.len() {
            assert(t[end as int] == self.ecs_tree@[end as int].view());
        }
        let ghost old_tree = self.ecs_tree@;
        let mut tail = self.ecs_tree.split_off(start);
        let mut rest = tail.split_off(end - start);
        self.ecs_tree.append(&mut rest);
        let mut item = self.ecs_tree.remove(idx);
        item.expanded = false;
        self.ecs_tree.insert(idx, item);
        proof {
            assert(tree_view(self.ecs_tree@) =~= t.take(idx as int) + seq![
                EcsTreeItemV { expanded: false, ..t[idx as int] },
            ] + t.skip(subtree_end(t, idx as int)));
        }
        if self.selected_ecs_tree >= self.ecs_tree.len() {
            self.selected_ecs_tree = if self.ecs_tree.len() == 0 {
                0
            } else {
                self.ecs_tree.len() - 1
            };
        }
    }
}


// ─── The state as a value ───────────────────────────────────────────────────
/// The value of an `EksCluster`.
pub struct EksClusterV {
    pub name: Seq<char>,
    pub status: Seq<char>,
    pub version: Seq<char>,
}

/// The value of an `EksNodegroup`.
pub struct EksNodegroupV {
    pub name: Seq<char>,
    pub status: Seq<char>,
    pub desired: i64,
    pub min: i64,
    pub max: i64,
    pub instance_types: Seq<char>,
}

impl EksCluster {
    pub open spec fn view(&self) -> EksClusterV {
        EksClusterV { name: self.name@, status: self.status@, version: self.version@ }
    }
}

impl EksNodegroup {
    pub open spec fn view(&self) -> EksNodegroupV {
        EksNodegroupV {
            name: self.name@,
            status: self.status@,
            desired: self.desired,
            min: self.min,
            max: self.max,
            instance_types: self.instance_types@,
        }
    }
}

/// The values of a list of strings.
pub open spec fn strings_view(v: Seq<String>) -> Seq<Seq<char>> {
    Seq::new(v.len(), |i: int| v[i]@)
}

/// The value of a `ContainersState`.
#[verifier::ext_equal]
pub struct ContainersStateV {
    pub profiles: Seq<Seq<char>>,
    pub active_profile_idx: usize,
    pub region_idx: usize,
    pub regions: Seq<Seq<char>>,
    pub region_dropdown_open: bool,
    pub sub_tab: ContainersSubTab,
    pub focus: ContainersFocus,
    pub ecs_tree: Seq<EcsTreeItemV>,
    pub selected_ecs_tree: usize,
    pub loading_ecs_clusters: bool,
    pub eks_clusters: Seq<EksClusterV>,
    pub selected_eks_cluster: usize,
    pub loading_eks_clusters: bool,
    pub eks_nodegroups: Seq<EksNodegroupV>,
    pub selected_eks_nodegroup: usize,
    pub loading_eks_nodegroups: bool,
    pub eks_nodegroups_for: Seq<char>,
    pub last_error: Option<Seq<char>>,
}

impl ContainersState {
    pub open spec fn view(&self) -> ContainersStateV {
        ContainersStateV {
            profiles: strings_view(self.profiles@),
            active_profile_idx: self.active_profile_idx,
            region_idx: self.region_idx,
            regions: strings_view(self.regions@),
            region_dropdown_open: self.region_dropdown_open,
            sub_tab: self.sub_tab,
            focus: self.focus,
            ecs_tree: tree_view(self.ecs_tree@),
            selected_ecs_tree: self.selected_ecs_tree,
            loading_ecs_clusters: self.loading_ecs_clusters,
            eks_clusters: Seq::new(self.eks_clusters@.len(), |i: int| self.eks_clusters@[i].view()),
            selected_eks_cluster: self.selected_eks_cluster,
            loading_eks_clusters: self.loading_eks_clusters,
            eks_nodegroups: Seq::new(
                self.eks_nodegroups@.len(),
                |i: int| self.eks_nodegroups@[i].view(),
            ),
            selected_eks_nodegroup: self.selected_eks_nodegroup,
            loading_eks_nodegroups: self.loading_eks_nodegroups,
            eks_nodegroups_for: self.eks_nodegroups_for@,
            last_error: match self.last_error {
                Some(e) => Some(e@),
                None => None,
            },
        }
    }
}

/// The value of a `FetchRequest`.
pub enum FetchRequestV {
    EcsClusters { profile: Seq<char>, region: Seq<char> },
    EcsServices { profile: Seq<char>, region: Seq<char>, cluster: Seq<char> },
    EcsTasks { profile: Seq<char>, region: Seq<char>, cluster: Seq<char>, service: Seq<char> },
    EksClusters { profile: Seq<char>, region: Seq<char> },
    EksNodegroups { profile: Seq<char>, region: Seq<char>, cluster: Seq<char> },
}

impl FetchRequest {
    pub open spec fn view(&self) -> FetchRequestV {
        match self {
            FetchRequest::EcsClusters { profile, region } => FetchRequestV::EcsClusters {
                profile: profile@,
                region: region@,
            },
            FetchRequest::EcsServices { profile, region, cluster } => FetchRequestV::EcsServices {
                profile: profile@,
                region: region@,
                cluster: cluster@,
            },
            FetchRequest::EcsTasks { profile, region, cluster, service } => FetchRequestV::EcsTasks {
                profile: profile@,
                region: region@,
                cluster: cluster@,
                service: service@,
            },
            FetchRequest::EksClusters { profile, region } => FetchRequestV::EksClusters {
                profile: profile@,
                region: region@,
            },
            FetchRequest::EksNodegroups { profile, region, cluster } => FetchRequestV::EksNodegroups {
                profile: profile@,
                region: region@,
                cluster: cluster@,
            },
        }
    }
}

/// The view of an optional request.
pub open spec fn request_view(r: Option<FetchRequest>) -> Option<FetchRequestV> {
    match r {
        Some(q) => Some(q.view()),
        None => None,
    }
}

/// The selected profile of a state, if its index points at one.
pub open spec fn profile_of(s: ContainersStateV) -> Option<Seq<char>> {
    if s.active_profile_idx < s.profiles.len() {
        Some(s.profiles[s.active_profile_idx as int])
    } else {
        None
    }
}

/// The selected region of a state.
pub open spec fn region_of(s: ContainersStateV) -> Seq<char> {
    s.regions[s.region_idx as int]
}

// ─── Toggling and collapsing ────────────────────────────────────────────────
/// Row `idx` collapsed: its descendants removed and it marked not expanded.
pub open spec fn collapse_tree(t: Seq<EcsTreeItemV>, idx: int) -> Seq<EcsTreeItemV> {
    t.take(idx) + seq![EcsTreeItemV { expanded: false, ..t[idx] }] + t.skip(subtree_end(t, idx))
}

/// The tree after the selected row is toggled: an expanded row collapses, a
/// collapsed cluster or service is marked loading, other rows stay as they are.
pub open spec fn toggle_tree(t: Seq<EcsTreeItemV>, idx: int) -> Seq<EcsTreeItemV> {
    if t[idx].expanded {
        collapse_tree(t, idx)
    } else if t[idx].kind == EcsTreeItemKind::Cluster || t[idx].kind == EcsTreeItemKind::Service {
        t.update(idx, set_loading(t[idx], true))
    } else {
        t
    }
}

/// The fetch that toggling the selected row asks for: a collapsed cluster
/// asks for its services, a collapsed service for its tasks, each only where a
/// profile is selected.
pub open spec fn toggle_request(s: ContainersStateV) -> Option<FetchRequestV> {
    let t = s.ecs_tree;
    let idx = s.selected_ecs_tree as int;
    if t.len() == 0 || t[idx].expanded {
        None
    } else {
        match profile_of(s) {
            None => None,
            Some(p) => if t[idx].kind == EcsTreeItemKind::Cluster {
                Some(FetchRequestV::EcsServices { profile: p, region: region_of(s), cluster: t[idx].name })
            } else if t[idx].kind == EcsTreeItemKind::Service {
                Some(
                    FetchRequestV::EcsTasks {
                        profile: p,
                        region: region_of(s),
                        cluster: t[idx].cluster_name,
                        service: t[idx].name,
                    },
                )
            } else {
                None
            },
        }
    }
}

/// The nearest row before `i` that is shallower than `depth`.
pub open spec fn parent_before(t: Seq<EcsTreeItemV>, depth: u8, i: int) -> Option<int>
    decreases i,
{
    if i <= 0 {
        None
    } else if t[i - 1].depth < depth {
        Some(i - 1)
    } else {
        parent_before(t, depth, i - 1)
    }
}

/// Sets the flags of row `i`.
fn set_row(tree: &mut Vec<EcsTreeItem>, i: usize, expanded: bool, loading: bool)
    requires
        i < old(tree)@.len(),
    ensures
        final(tree)@.len() == old(tree)@.len(),
        tree_view(final(tree)@) == tree_view(old(tree)@).update(
            i as int,
            EcsTreeItemV { expanded, loading, ..tree_view(old(tree)@)[i as int] },
        ),
{
    let mut item = tree.remove(i);
    item.expanded = expanded;
    item.loading = loading;
    tree.insert(i, item);
    assert(tree_view(tree@) =~= tree_view(old(tree)@).update(
        i as int,
        EcsTreeItemV { expanded, loading, ..tree_view(old(tree)@)[i as int] },
    ));
}

/// The tab after `ecs_toggle_selected` returned `r`.
pub open spec fn ecs_toggled(o: ContainersState, n: ContainersState, r: Option<FetchRequest>) -> bool {
    &&& n.wf()
    &&& request_view(r) == toggle_request(o.view())
    &&& o.ecs_tree@.len() == 0 ==> n == o
    &&& o.ecs_tree@.len() > 0 ==> tree_view(n.ecs_tree@) == toggle_tree(
        tree_view(o.ecs_tree@),
        o.selected_ecs_tree as int,
    )
    &&& o.ecs_tree@.len() > 0 ==> n.selected_ecs_tree == clamp_sel(
        o.selected_ecs_tree as nat,
        n.ecs_tree@.len(),
    )
    &&& n == (ContainersState {
        ecs_tree: n.ecs_tree,
        selected_ecs_tree: n.selected_ecs_tree,
        ..o
    })
}

impl ContainersState {
    /// Toggles the selected ECS row: an expanded row collapses; a collapsed
    /// cluster or service is marked loading and the fetch of its children is
    /// returned (where a profile is selected); tasks and containers stay.
    pub fn ecs_toggle_selected(&mut self) -> (r: Option<FetchRequest>)
        requires
            old(self).wf(),
        ensures
            ecs_toggled(*old(self), *final(self), r),
    {
        if self.ecs_tree.len() == 0 {
            return None;
        }
        let ghost t = tree_view(self.ecs_tree@);
        let idx = self.selected_ecs_tree;
        assert(t[idx as int] == self.ecs_tree@[idx as int].view());
        if self.ecs_tree[idx].expanded {
            self.ecs_collapse_at(idx);
            proof {
                lemma_subtree_end_from(t, t[idx as int].depth, idx + 1);
            }
            return None;
        }
        let kind = self.ecs_tree[idx].kind;
        match kind {
            EcsTreeItemKind::Cluster => {
                let name = clone_string(&self.ecs_tree[idx].name);
                let exp = self.ecs_tree[idx].expanded;
                set_row(&mut self.ecs_tree, idx, exp, true);
                assert(tree_view(self.ecs_tree@) =~= t.update(idx as int, set_loading(t[idx as int], true)));
                match self.active_profile() {
                    Some(p) => {
                        let profile = clone_string(p);
                        let region = clone_string(self.active_region());
                        Some(FetchRequest::EcsServices { profile, region, cluster: name })
                    },
                    None => None,
                }
            },
            EcsTreeItemKind::Service => {
                let cluster = clone_string(&self.ecs_tree[idx].cluster_name);
                let service = clone_string(&self.ecs_tree[idx].name);
                let exp = self.ecs_tree[idx].expanded;
                set_row(&mut self.ecs_tree, idx, exp, true);
                assert(tree_view(self.ecs_tree@) =~= t.update(idx as int, set_loading(t[idx as int], true)));
                match self.active_profile() {
                    Some(p) => {
                        let profile = clone_string(p);
                        let region = clone_string(self.active_region());
                        Some(FetchRequest::EcsTasks { profile, region, cluster, service })
                    },
                    None => None,
                }
            },
            _ => None,
        }
    }
}


/// The tab after `ecs_collapse_selected`.
pub open spec fn ecs_collapsed(o: ContainersState, n: ContainersState) -> bool {
    &&& n.wf()
    &&& ({
        let t = tree_view(o.ecs_tree@);
        let idx = o.selected_ecs_tree as int;
        if t.len() == 0 {
            n == o
        } else if t[idx].expanded {
            &&& tree_view(n.ecs_tree@) == collapse_tree(t, idx)
            &&& n.selected_ecs_tree == clamp_sel(
                idx as nat,
                n.ecs_tree@.len(),
            )
            &&& n == (ContainersState {
                ecs_tree: n.ecs_tree,
                selected_ecs_tree: n.selected_ecs_tree,
                ..o
            })
        } else {
            &&& n.selected_ecs_tree == (if t[idx].depth == 0 {
                idx
            } else {
                match parent_before(t, t[idx].depth, idx) {
                    Some(p) => p,
                    None => idx,
                }
            })
            &&& n == (ContainersState {
                selected_ecs_tree: n.selected_ecs_tree,
                ..o
            })
        }
    })
}

/// The tab after `next_cluster`.
pub open spec fn cluster_next(o: ContainersState, n: ContainersState) -> bool {
    &&& o.sub_tab == ContainersSubTab::Ecs ==> n == (ContainersState {
        selected_ecs_tree: (if o.ecs_tree@.len() > 0 {
            ((o.selected_ecs_tree + 1) % (o.ecs_tree@.len() as int)) as usize
        } else {
            o.selected_ecs_tree
        }),
        ..o
    })
    &&& o.sub_tab == ContainersSubTab::Eks ==> n == (ContainersState {
        selected_eks_cluster: (if o.eks_clusters@.len() > 0 {
            ((o.selected_eks_cluster + 1) % (o.eks_clusters@.len() as int)) as usize
        } else {
            o.selected_eks_cluster
        }),
        ..o
    })
}

/// The tab after `prev_cluster`.
pub open spec fn cluster_prev(o: ContainersState, n: ContainersState) -> bool {
    &&& o.sub_tab == ContainersSubTab::Ecs ==> n == (ContainersState {
        selected_ecs_tree: (if o.ecs_tree@.len() == 0 {
            o.selected_ecs_tree
        } else if o.selected_ecs_tree == 0 {
            (o.ecs_tree@.len() - 1) as usize
        } else {
            (o.selected_ecs_tree - 1) as usize
        }),
        ..o
    })
    &&& o.sub_tab == ContainersSubTab::Eks ==> n == (ContainersState {
        selected_eks_cluster: (if o.eks_clusters@.len() == 0 {
            o.selected_eks_cluster
        } else if o.selected_eks_cluster == 0 {
            (o.eks_clusters@.len() - 1) as usize
        } else {
            (o.selected_eks_cluster - 1) as usize
        }),
        ..o
    })
}

/// The tab after `next_detail`.
pub open spec fn detail_next(o: ContainersState, n: ContainersState) -> bool {
    &&& n == (ContainersState {
        selected_eks_nodegroup: (if o.sub_tab == ContainersSubTab::Eks
            && o.eks_nodegroups@.len() > 0 {
            ((o.selected_eks_nodegroup + 1) % (o.eks_nodegroups@.len() as int)) as usize
        } else {
            o.selected_eks_nodegroup
        }),
        ..o
    })
}

/// The tab after `prev_detail`.
pub open spec fn detail_prev(o: ContainersState, n: ContainersState) -> bool {
    &&& n == (ContainersState {
        selected_eks_nodegroup: (if o.sub_tab == ContainersSubTab::Ecs
            || o.eks_nodegroups@.len() == 0 {
            o.selected_eks_nodegroup
        } else if o.selected_eks_nodegroup == 0 {
            (o.eks_nodegroups@.len() - 1) as usize
        } else {
            (o.selected_eks_nodegroup - 1) as usize
        }),
        ..o
    })
}

/// The tab after `cycle_focus`.
pub open spec fn cont_focus_cycled(o: ContainersState, n: ContainersState) -> bool {
    &&& n == (ContainersState { focus: next_focus(o.focus, o.sub_tab), ..o })
}

/// The tab after `switch_sub_tab`.
pub open spec fn sub_tab_switched(o: ContainersState, n: ContainersState) -> bool {
    &&& n.sub_tab == (if o.sub_tab == ContainersSubTab::Ecs {
        ContainersSubTab::Eks
    } else {
        ContainersSubTab::Ecs
    })
    &&& n.focus == (if n.sub_tab == ContainersSubTab::Ecs && o.focus
        == ContainersFocus::DetailList {
        ContainersFocus::ClusterList
    } else {
        o.focus
    })
    &&& n == (ContainersState {
        sub_tab: n.sub_tab,
        focus: n.focus,
        ..o
    })
}

impl ContainersState {
    /// Collapses the selected ECS row where it is expanded; otherwise moves the
    /// selection to its parent (the nearest shallower row above it).
    pub fn ecs_collapse_selected(&mut self)
        requires
            old(self).wf(),
        ensures
            ecs_collapsed(*old(self), *final(self)),
    {
        if self.ecs_tree.len() == 0 {
            return ;
        }
        let ghost t = tree_view(self.ecs_tree@);
        let idx = self.selected_ecs_tree;
        assert(t[idx as int] == self.ecs_tree@[idx as int].view());
        if self.ecs_tree[idx].expanded {
            self.ecs_collapse_at(idx);
            return ;
        }
        let depth = self.ecs_tree[idx].depth;
        if depth == 0 {
            return ;
        }
        let mut i = idx;
        while i > 0
            invariant
                i <= idx < self.ecs_tree@.len(),
                t == tree_view(self.ecs_tree@),
                self.wf(),
                *self == *old(self),
                depth == t[idx as int].depth,
                depth > 0,
                !t[idx as int].expanded,
                idx == old(self).selected_ecs_tree,
                parent_before(t, depth, idx as int) == parent_before(t, depth, i as int),
            decreases i,
        {
            i = i - 1;
            assert(t[i as int] == self.ecs_tree@[i as int].view());
            if self.ecs_tree[i].depth < depth {
                self.selected_ecs_tree = i;
                return ;
            }
        }
    }

    /// The next cluster: the next ECS row, or the next EKS cluster (wrapping).
    pub fn next_cluster(&mut self)
        ensures
            cluster_next(*old(self), *final(self)),
    {
        match self.sub_tab {
            ContainersSubTab::Ecs => self.ecs_next_item(),
            ContainersSubTab::Eks => {
                let len = self.eks_clusters.len();
                if len == 0 {
                    return ;
                }
                self.selected_eks_cluster = ((self.selected_eks_cluster as u128 + 1) % (len as u128)) as usize;
            },
        }
    }

    /// The previous cluster: the previous ECS row, or the previous EKS cluster
    /// (wrapping).
    pub fn prev_cluster(&mut self)
        ensures
            cluster_prev(*old(self), *final(self)),
    {
        match self.sub_tab {
            ContainersSubTab::Ecs => self.ecs_prev_item(),
            ContainersSubTab::Eks => {
                let len = self.eks_clusters.len();
                if len == 0 {
                    return ;
                }
                self.selected_eks_cluster = if self.selected_eks_cluster == 0 {
                    len - 1
                } else {
                    self.selected_eks_cluster - 1
                };
            },
        }
    }

    /// The next EKS nodegroup (wrapping); nothing on the ECS view.
    pub fn next_detail(&mut self)
        ensures
            detail_next(*old(self), *final(self)),
    {
        match self.sub_tab {
            ContainersSubTab::Ecs => {},
            ContainersSubTab::Eks => {
                if self.eks_nodegroups.len() > 0 {
                    self.selected_eks_nodegroup = ((self.selected_eks_nodegroup as u128 + 1) % (
                    self.eks_nodegroups.len() as u128)) as usize;
                }
            },
        }
    }

    /// The previous EKS nodegroup (wrapping); nothing on the ECS view.
    pub fn prev_detail(&mut self)
        ensures
            detail_prev(*old(self), *final(self)),
    {
        match self.sub_tab {
            ContainersSubTab::Ecs => {},
            ContainersSubTab::Eks => {
                if self.eks_nodegroups.len() > 0 {
                    self.selected_eks_nodegroup = if self.selected_eks_nodegroup == 0 {
                        self.eks_nodegroups.len() - 1
                    } else {
                        self.selected_eks_nodegroup - 1
                    };
                }
            },
        }
    }

    /// Moves the focus: region list, sub-tab bar, cluster list, then (on the
    /// EKS view) the detail list, and round again.
    pub fn cycle_focus(&mut self)
        ensures
            cont_focus_cycled(*old(self), *final(self)),
    {
        self.focus = match self.focus {
            ContainersFocus::RegionList => ContainersFocus::SubTabBar,
            ContainersFocus::SubTabBar => ContainersFocus::ClusterList,
            ContainersFocus::ClusterList => match self.sub_tab {
                ContainersSubTab::Ecs => ContainersFocus::RegionList,
                ContainersSubTab::Eks => ContainersFocus::DetailList,
            },
            ContainersFocus::DetailList => ContainersFocus::RegionList,
        };
    }

    /// Switches between the ECS and EKS views; the detail list, which the ECS
    /// view lacks, hands the focus to the cluster list.
    pub fn switch_sub_tab(&mut self)
        ensures
            sub_tab_switched(*old(self), *final(self)),
    {
        self.sub_tab = match self.sub_tab {
            ContainersSubTab::Ecs => ContainersSubTab::Eks,
            ContainersSubTab::Eks => ContainersSubTab::Ecs,
        };
        if self.sub_tab == ContainersSubTab::Ecs && self.focus == ContainersFocus::DetailList {
            self.focus = ContainersFocus::ClusterList;
        }
    }
}

/// The focus after `f` in the cycle of view `tab`.
pub open spec fn next_focus(f: ContainersFocus, tab: ContainersSubTab) -> ContainersFocus {
    match f {
        ContainersFocus::RegionList => ContainersFocus::SubTabBar,
        ContainersFocus::SubTabBar => ContainersFocus::ClusterList,
        ContainersFocus::ClusterList => if tab == ContainersSubTab::Ecs {
            ContainersFocus::RegionList
        } else {
            ContainersFocus::DetailList
        },
        ContainersFocus::DetailList => ContainersFocus::RegionList,
    }
}


// ─── Applying fetched results ───────────────────────────────────────────────
/// The rows of a list of clusters.
pub open spec fn cluster_rows(cs: Seq<EcsCluster>) -> Seq<EcsTreeItemV> {
    Seq::new(cs.len(), |i: int| cluster_row(cs[i]))
}

/// The rows of a list of services of cluster `cluster`.
pub open spec fn service_rows(ss: Seq<EcsService>, cluster: Seq<char>) -> Seq<EcsTreeItemV> {
    Seq::new(ss.len(), |i: int| service_row(ss[i], cluster))
}

/// Row `idx` opened (expanded, not loading) with `children` below it in place
/// of its former descendants.
pub open spec fn expand_with(t: Seq<EcsTreeItemV>, idx: int, children: Seq<EcsTreeItemV>) -> Seq<EcsTreeItemV> {
    with_children(t.update(idx, set_open(t[idx], true)), idx, children)
}

/// The state with a new tree whose selection is clamped into it.
pub open spec fn with_tree(s: ContainersStateV, t: Seq<EcsTreeItemV>) -> ContainersStateV {
    ContainersStateV {
        last_error: None,
        ecs_tree: t,
        selected_ecs_tree: clamp_sel(s.selected_ecs_tree as nat, t.len()) as usize,
        ..s
    }
}

/// The view of an optional string.
pub open spec fn opt_view(o: Option<&String>) -> Option<Seq<char>> {
    match o {
        Some(c) => Some(c@),
        None => None,
    }
}

/// The state after one fetched result: clusters replace the tree; services
/// and tasks open the row they belong to (where it is still there) with their
/// rows below it; EKS clusters replace the list and drop the nodegroups;
/// nodegroups replace theirs; an error ends every loading state and is kept.
pub open spec fn apply_result(s: ContainersStateV, r: FetchResult) -> ContainersStateV {
    match r {
        FetchResult::EcsClusters(cs) => ContainersStateV {
            loading_ecs_clusters: false,
            last_error: None,
            ecs_tree: cluster_rows(cs@),
            selected_ecs_tree: 0,
            ..s
        },
        FetchResult::EcsServices(c, ss) => match find_row_from(
            s.ecs_tree,
            EcsTreeItemKind::Cluster,
            c@,
            None,
            0,
        ) {
            Some(i) => with_tree(s, expand_with(s.ecs_tree, i, service_rows(ss@, c@))),
            None => ContainersStateV { last_error: None, ..s },
        },
        FetchResult::EcsTasks(c, sv, ts) => match find_row_from(
            s.ecs_tree,
            EcsTreeItemKind::Service,
            sv@,
            Some(c@),
            0,
        ) {
            Some(i) => with_tree(s, expand_with(s.ecs_tree, i, tasks_rows(ts@, c@, sv@))),
            None => ContainersStateV { last_error: None, ..s },
        },
        FetchResult::EksClusters(cs) => ContainersStateV {
            eks_clusters: Seq::new(cs@.len(), |i: int| cs@[i].view()),
            selected_eks_cluster: 0,
            loading_eks_clusters: false,
            eks_nodegroups: Seq::empty(),
            eks_nodegroups_for: Seq::empty(),
            last_error: None,
            ..s
        },
        FetchResult::EksNodegroups(c, ngs) => ContainersStateV {
            eks_nodegroups: Seq::new(ngs@.len(), |i: int| ngs@[i].view()),
            selected_eks_nodegroup: 0,
            loading_eks_nodegroups: false,
            eks_nodegroups_for: c@,
            last_error: None,
            ..s
        },
        FetchResult::Error(e) => ContainersStateV {
            loading_ecs_clusters: false,
            loading_eks_clusters: false,
            loading_eks_nodegroups: false,
            ecs_tree: Seq::new(s.ecs_tree.len(), |i: int| set_loading(s.ecs_tree[i], false)),
            last_error: Some(e@),
            ..s
        },
    }
}

/// The state after a list of results, applied in order.
pub open spec fn apply_results(s: ContainersStateV, rs: Seq<FetchResult>) -> ContainersStateV
    decreases rs.len(),
{
    if rs.len() == 0 {
        s
    } else {
        apply_results(apply_result(s, rs[0]), rs.skip(1))
    }
}

/// The first row of kind `kind` named `name` (and of cluster `cluster`, when
/// given).
fn find_row(tree: &Vec<EcsTreeItem>, kind: EcsTreeItemKind, name: &String, cluster: Option<&String>) -> (r: Option<usize>)
    ensures
        match r {
            Some(i) => find_row_from(tree_view(tree@), kind, name@, opt_view(cluster), 0) == Some(i as int)
                && i < tree@.len(),
            None => find_row_from(tree_view(tree@), kind, name@, opt_view(cluster), 0) is None,
        },
{
    let ghost t = tree_view(tree@);
    let ghost oc = opt_view(cluster);
    let mut i: usize = 0;
    while i < tree.len()
        invariant
            i <= tree@.len(),
            t == tree_view(tree@),
            oc == opt_view(cluster),
            find_row_from(t, kind, name@, oc, 0) == find_row_from(t, kind, name@, oc, i as int),
        decreases tree@.len() - i,
    {
        assert(t[i as int] == tree@[i as int].view());
        let row = &tree[i];
        if row.kind == kind && str_eq(row.name.as_str(), name.as_str()) {
            let ok = match cluster {
                Some(c) => str_eq(row.cluster_name.as_str(), c.as_str()),
                None => true,
            };
            if ok {
                return Some(i);
            }
        }
        i = i + 1;
    }
    None
}

/// Marks every row not loading.
fn clear_loading(tree: &mut Vec<EcsTreeItem>)
    ensures
        tree_view(final(tree)@) == Seq::new(
            old(tree)@.len(),
            |k: int| set_loading(tree_view(old(tree)@)[k], false),
        ),
{
    let ghost t = tree_view(tree@);
    let n = tree.len();
    let mut i: usize = 0;
    while i < n
        invariant
            i <= n == tree@.len() == t.len(),
            tree_view(tree@) =~= Seq::new(
                n as nat,
                |k: int|
                    if k < i {
                        set_loading(t[k], false)
                    } else {
                        t[k]
                    },
            ),
        decreases n - i,
    {
        assert(tree_view(tree@)[i as int] == tree@[i as int].view());
        let e_i = tree[i].expanded;
        set_row(tree, i, e_i, false);
        i = i + 1;
    }
    assert(tree_view(tree@) =~= Seq::new(n as nat, |k: int| set_loading(t[k], false)));
}

fn make_service_rows(ss: &Vec<EcsService>, cluster: &String) -> (r: Vec<EcsTreeItem>)
    ensures
        tree_view(r@) == service_rows(ss@, cluster@),
{
    let mut r: Vec<EcsTreeItem> = Vec::new();
    let mut i: usize = 0;
    while i < ss.len()
        invariant
            i <= ss@.len(),
            r@.len() == i,
            forall|k: int| 0 <= k < i ==> (#[trigger] r@[k]).view() == service_row(ss@[k], cluster@),
        decreases ss@.len() - i,
    {
        r.push(make_service_row(&ss[i], cluster));
        i = i + 1;
    }
    assert(tree_view(r@) =~= service_rows(ss@, cluster@));
    r
}

fn make_tasks_rows(ts: &Vec<EcsTaskData>, cluster: &String, service: &String) -> (r: Vec<EcsTreeItem>)
    ensures
        tree_view(r@) == tasks_rows(ts@, cluster@, service@),
{
    let mut r: Vec<EcsTreeItem> = Vec::new();
    let mut i: usize = 0;
    while i < ts.len()
        invariant
            i <= ts@.len(),
            tree_view(r@) == tasks_rows(ts@.take(i as int), cluster@, service@),
        decreases ts@.len() - i,
    {
        let mut rows = make_task_rows(&ts[i], cluster, service);
        let ghost before = r@;
        let ghost added = rows@;
        r.append(&mut rows);
        assert(ts@.take(i + 1).drop_last() =~= ts@.take(i as int));
        assert(ts@.take(i + 1).last() == ts@[i as int]);
        assert(tree_view(r@) =~= tree_view(before) + tree_view(added));
        i = i + 1;
    }
    assert(ts@.take(i as int) =~= ts@);
    r
}

fn make_cluster_rows(cs: &Vec<EcsCluster>) -> (r: Vec<EcsTreeItem>)
    ensures
        tree_view(r@) == cluster_rows(cs@),
{
    let mut r: Vec<EcsTreeItem> = Vec::new();
    let mut i: usize = 0;
    while i < cs.len()
        invariant
            i <= cs@.len(),
            r@.len() == i,
            forall|k: int| 0 <= k < i ==> (#[trigger] r@[k]).view() == cluster_row(cs@[k]),
        decreases cs@.len() - i,
    {
        r.push(make_cluster_row(&cs[i]));
        i = i + 1;
    }
    assert(tree_view(r@) =~= cluster_rows(cs@));
    r
}

impl ContainersState {
    /// Opens row `idx` and puts `children` below it.
    fn open_with(&mut self, idx: usize, children: Vec<EcsTreeItem>)
        requires
            old(self).wf(),
            idx < old(self).ecs_tree@.len(),
        ensures
            final(self).wf(),
            final(self).view() == with_tree(
                old(self).view(),
                expand_with(tree_view(old(self).ecs_tree@), idx as int, tree_view(children@)),
            ),
    {
        let ghost t = tree_view(self.ecs_tree@);
        set_row(&mut self.ecs_tree, idx, true, false);
        assert(tree_view(self.ecs_tree@) =~= t.update(idx as int, set_open(t[idx as int], true)));
        self.ecs_insert_children(idx, children);
        self.last_error = None;
        assert(self.view() =~= with_tree(
            old(self).view(),
            expand_with(t, idx as int, tree_view(children@)),
        ));
    }

    /// Applies one fetched result to the state.
    pub fn apply_fetch_result(&mut self, r: FetchResult)
        requires
            old(self).wf(),
        ensures
            final(self).wf(),
            final(self).view() == apply_result(old(self).view(), r),
    {
        let ghost s0 = self.view();
        match r {
            FetchResult::EcsClusters(cs) => {
                let rows = make_cluster_rows(&cs);
                self.loading_ecs_clusters = false;
                self.last_error = None;
                self.ecs_tree = rows;
                self.selected_ecs_tree = 0;
                assert(self.wf());
                assert(self.view() =~= apply_result(s0, FetchResult::EcsClusters(cs)));
            },
            FetchResult::EcsServices(c, ss) => {
                match find_row(&self.ecs_tree, EcsTreeItemKind::Cluster, &c, None) {
                    Some(i) => {
                        let children = make_service_rows(&ss, &c);
                        self.open_with(i, children);
                    },
                    None => {
                        self.last_error = None;
                        assert(self.view() =~= ContainersStateV { last_error: None, ..s0 });
                    },
                }
            },
            FetchResult::EcsTasks(c, sv, ts) => {
                match find_row(&self.ecs_tree, EcsTreeItemKind::Service, &sv, Some(&c)) {
                    Some(i) => {
                        let children = make_tasks_rows(&ts, &c, &sv);
                        self.open_with(i, children);
                    },
                    None => {
                        self.last_error = None;
                        assert(self.view() =~= ContainersStateV { last_error: None, ..s0 });
                    },
                }
            },
            FetchResult::EksClusters(cs) => {
                let ghost csv = cs@;
                self.eks_clusters = cs;
                self.selected_eks_cluster = 0;
                self.loading_eks_clusters = false;
                self.eks_nodegroups = Vec::new();
                self.eks_nodegroups_for = String::new();
                self.last_error = None;
                assert(self.view() =~= ContainersStateV {
                    eks_clusters: Seq::new(csv.len(), |i: int| csv[i].view()),
                    selected_eks_cluster: 0,
                    loading_eks_clusters: false,
                    eks_nodegroups: Seq::empty(),
                    eks_nodegroups_for: Seq::empty(),
                    last_error: None,
                    ..s0
                });
            },
            FetchResult::EksNodegroups(c, ngs) => {
                let ghost nv = ngs@;
                let ghost cv = c@;
                self.eks_nodegroups = ngs;
                self.selected_eks_nodegroup = 0;
                self.loading_eks_nodegroups = false;
                self.eks_nodegroups_for = c;
                self.last_error = None;
                assert(self.view() =~= ContainersStateV {
                    eks_nodegroups: Seq::new(nv.len(), |i: int| nv[i].view()),
                    selected_eks_nodegroup: 0,
                    loading_eks_nodegroups: false,
                    eks_nodegroups_for: cv,
                    last_error: None,
                    ..s0
                });
            },
            FetchResult::Error(e) => {
                let ghost ev = e@;
                self.loading_ecs_clusters = false;
                self.loading_eks_clusters = false;
                self.loading_eks_nodegroups = false;
                let ghost t = tree_view(self.ecs_tree@);
                clear_loading(&mut self.ecs_tree);
                self.last_error = Some(e);
                assert(self.ecs_tree@.len() == tree_view(self.ecs_tree@).len());
                assert(self.wf());
                assert(self.view() =~= ContainersStateV {
                    loading_ecs_clusters: false,
                    loading_eks_clusters: false,
                    loading_eks_nodegroups: false,
                    ecs_tree: Seq::new(t.len(), |k: int| set_loading(t[k], false)),
                    last_error: Some(ev),
                    ..s0
                });
            },
        }
    }

    /// Applies the results of background fetches, in the order they came.
    pub fn tick(&mut self, results: Vec<FetchResult>)
        requires
            old(self).wf(),
        ensures
            final(self).wf(),
            final(self).view() == apply_results(old(self).view(), results@),
    {
        let mut results = results;
        let ghost all = results@;
        while results.len() > 0
            invariant
                self.wf(),
                apply_results(self.view(), results@) == apply_results(old(self).view(), all),
            decreases results@.len(),
        {
            let ghost rs = results@;
            let r = results.remove(0);
            assert(results@ =~= rs.skip(1));
            self.apply_fetch_result(r);
        }
    }
}


// ─── Starting fetches ───────────────────────────────────────────────────────
/// The tab after `fetch_ecs_clusters` returned `r`.
pub open spec fn ecs_clusters_fetched(o: ContainersState, n: ContainersState, r: Option<FetchRequest>) -> bool {
    &&& n.wf()
    &&& match profile_of(o.view()) {
        None => r is None && n == o,
        Some(p) => {
            &&& request_view(r) == Some(
                FetchRequestV::EcsClusters { profile: p, region: region_of(o.view()) },
            )
            &&& n.view() == ContainersStateV {
                loading_ecs_clusters: true,
                ecs_tree: Seq::empty(),
                selected_ecs_tree: 0,
                ..o.view()
            }
        },
    }
}

/// The tab after `fetch_eks_clusters` returned `r`.
pub open spec fn eks_clusters_fetched(o: ContainersState, n: ContainersState, r: Option<FetchRequest>) -> bool {
    &&& n.wf()
    &&& match profile_of(o.view()) {
        None => r is None && n == o,
        Some(p) => {
            &&& request_view(r) == Some(
                FetchRequestV::EksClusters { profile: p, region: region_of(o.view()) },
            )
            &&& n.view() == ContainersStateV {
                loading_eks_clusters: true,
                eks_clusters: Seq::empty(),
                eks_nodegroups: Seq::empty(),
                eks_nodegroups_for: Seq::empty(),
                ..o.view()
            }
        },
    }
}

/// The tab after `fetch_clusters` returned `r`.
pub open spec fn clusters_fetched(o: ContainersState, n: ContainersState, r: Option<FetchRequest>) -> bool {
    &&& n.wf()
    &&& o.sub_tab == ContainersSubTab::Ecs ==> match profile_of(o.view()) {
        None => r is None && n == o,
        Some(p) => request_view(r) == Some(
            FetchRequestV::EcsClusters { profile: p, region: region_of(o.view()) },
        ) && n.view() == ContainersStateV {
            loading_ecs_clusters: true,
            ecs_tree: Seq::empty(),
            selected_ecs_tree: 0,
            ..o.view()
        },
    }
    &&& o.sub_tab == ContainersSubTab::Eks ==> match profile_of(o.view()) {
        None => r is None && n == o,
        Some(p) => request_view(r) == Some(
            FetchRequestV::EksClusters { profile: p, region: region_of(o.view()) },
        ) && n.view() == ContainersStateV {
            loading_eks_clusters: true,
            eks_clusters: Seq::empty(),
            eks_nodegroups: Seq::empty(),
            eks_nodegroups_for: Seq::empty(),
            ..o.view()
        },
    }
}

/// The tab after `fetch_detail_for_selected` returned `r`.
pub open spec fn detail_fetched(o: ContainersState, n: ContainersState, r: Option<FetchRequest>) -> bool {
    &&& n.wf()
    &&& o.sub_tab == ContainersSubTab::Ecs ==> {
        &&& request_view(r) == toggle_request(o.view())
        &&& o.ecs_tree@.len() > 0 ==> tree_view(n.ecs_tree@)
            == toggle_tree(tree_view(o.ecs_tree@), o.selected_ecs_tree as int)
        &&& o.ecs_tree@.len() > 0 ==> n.selected_ecs_tree == clamp_sel(
            o.selected_ecs_tree as nat,
            n.ecs_tree@.len(),
        )
        &&& n == (ContainersState {
            ecs_tree: n.ecs_tree,
            selected_ecs_tree: n.selected_ecs_tree,
            ..o
        })
    }
    &&& o.sub_tab == ContainersSubTab::Eks ==> {
        let s = o.view();
        if s.selected_eks_cluster < s.eks_clusters.len() && profile_of(s) is Some {
            &&& request_view(r) == Some(
                FetchRequestV::EksNodegroups {
                    profile: profile_of(s)->0,
                    region: region_of(s),
                    cluster: s.eks_clusters[s.selected_eks_cluster as int].name,
                },
            )
            &&& n.view() == ContainersStateV {
                loading_eks_nodegroups: true,
                eks_nodegroups: Seq::empty(),
                ..s
            }
        } else {
            r is None && n == o
        }
    }
}

impl ContainersState {
    /// Starts loading the ECS clusters of the selected profile and region:
    /// the tree is emptied and the request returned. Without a profile nothing
    /// changes.
    pub fn fetch_ecs_clusters(&mut self) -> (r: Option<FetchRequest>)
        requires
            old(self).wf(),
        ensures
            ecs_clusters_fetched(*old(self), *final(self), r),
    {
        let profile = match self.active_profile() {
            Some(p) => clone_string(p),
            None => return None,
        };
        let region = clone_string(self.active_region());
        let ghost s0 = self.view();
        self.loading_ecs_clusters = true;
        self.ecs_tree = Vec::new();
        self.selected_ecs_tree = 0;
        assert(self.view() =~= ContainersStateV {
            loading_ecs_clusters: true,
            ecs_tree: Seq::empty(),
            selected_ecs_tree: 0,
            ..s0
        });
        Some(FetchRequest::EcsClusters { profile, region })
    }

    /// Starts loading the EKS clusters of the selected profile and region:
    /// clusters and nodegroups are emptied and the request returned. Without a
    /// profile nothing changes.
    pub fn fetch_eks_clusters(&mut self) -> (r: Option<FetchRequest>)
        requires
            old(self).wf(),
        ensures
            eks_clusters_fetched(*old(self), *final(self), r),
    {
        let profile = match self.active_profile() {
            Some(p) => clone_string(p),
            None => return None,
        };
        let region = clone_string(self.active_region());
        let ghost s0 = self.view();
        self.loading_eks_clusters = true;
        self.eks_clusters = Vec::new();
        self.eks_nodegroups = Vec::new();
        self.eks_nodegroups_for = String::new();
        assert(self.view() =~= ContainersStateV {
            loading_eks_clusters: true,
            eks_clusters: Seq::empty(),
            eks_nodegroups: Seq::empty(),
            eks_nodegroups_for: Seq::empty(),
            ..s0
        });
        Some(FetchRequest::EksClusters { profile, region })
    }

    /// Starts loading the nodegroups of the selected EKS cluster: they are
    /// emptied and the request returned. Without a selected cluster or a
    /// profile nothing changes.
    pub fn fetch_eks_nodegroups(&mut self) -> (r: Option<FetchRequest>)
        requires
            old(self).wf(),
        ensures
            final(self).wf(),
            ({
                let s = old(self).view();
                if s.selected_eks_cluster < s.eks_clusters.len() && profile_of(s) is Some {
                    &&& request_view(r) == Some(
                        FetchRequestV::EksNodegroups {
                            profile: profile_of(s)->0,
                            region: region_of(s),
                            cluster: s.eks_clusters[s.selected_eks_cluster as int].name,
                        },
                    )
                    &&& final(self).view() == ContainersStateV {
                        loading_eks_nodegroups: true,
                        eks_nodegroups: Seq::empty(),
                        ..s
                    }
                } else {
                    r is None && *final(self) == *old(self)
                }
            }),
    {
        if self.selected_eks_cluster >= self.eks_clusters.len() {
            return None;
        }
        let cluster = clone_string(&self.eks_clusters[self.selected_eks_cluster].name);
        let profile = match self.active_profile() {
            Some(p) => clone_string(p),
            None => return None,
        };
        let region = clone_string(self.active_region());
        let ghost s0 = self.view();
        self.loading_eks_nodegroups = true;
        self.eks_nodegroups = Vec::new();
        assert(self.view() =~= ContainersStateV {
            loading_eks_nodegroups: true,
            eks_nodegroups: Seq::empty(),
            ..s0
        });
        Some(FetchRequest::EksNodegroups { profile, region, cluster })
    }

    /// Starts loading the clusters of the current view.
    pub fn fetch_clusters(&mut self) -> (r: Option<FetchRequest>)
        requires
            old(self).wf(),
        ensures
            clusters_fetched(*old(self), *final(self), r),
    {
        match self.sub_tab {
            ContainersSubTab::Ecs => self.fetch_ecs_clusters(),
            ContainersSubTab::Eks => self.fetch_eks_clusters(),
        }
    }

    /// Acts on the selected item of the current view: toggles the selected ECS
    /// row, or loads the nodegroups of the selected EKS cluster.
    pub fn fetch_detail_for_selected(&mut self) -> (r: Option<FetchRequest>)
        requires
            old(self).wf(),
        ensures
            detail_fetched(*old(self), *final(self), r),
    {
        match self.sub_tab {
            ContainersSubTab::Ecs => self.ecs_toggle_selected(),
            ContainersSubTab::Eks => self.fetch_eks_nodegroups(),
        }
    }
}

} // verus!
