//! The Instances tab: EC2 instances of a profile and region, a searchable
//! information popup, and the SSM sessions opened to instances.
use vstd::prelude::*;
use crate::text::{
    str_to_string, lowercase, to_lower, contains_seq, str_contains, concat, str_eq, push_char, pop_last,
    without_last,
};

verus! {

// ─── Regions ────────────────────────────────────────────────────────────────
/// The AWS regions offered, in order.
pub open spec fn region_names() -> Seq<Seq<char>> {
    seq![
        "us-east-1"@,
        "us-east-2"@,
        "us-west-1"@,
        "us-west-2"@,
        "eu-west-1"@,
        "eu-west-2"@,
        "eu-west-3"@,
        "eu-central-1"@,
        "eu-north-1"@,
        "ap-southeast-1"@,
        "ap-southeast-2"@,
        "ap-northeast-1"@,
        "ap-northeast-2"@,
        "ap-south-1"@,
        "sa-east-1"@,
        "ca-central-1"@,
        "me-south-1"@,
        "af-south-1"@,
    ]
}

/// The AWS regions offered (see `region_names`).
pub fn regions_list() -> (v: Vec<String>)
    ensures
        v@.len() == 18,
        forall|i: int| 0 <= i < 18 ==> (#[trigger] v@[i])@ == region_names()[i],
{
    let mut v: Vec<String> = Vec::new();
    v.push(str_to_string("us-east-1"));
    v.push(str_to_string("us-east-2"));
    v.push(str_to_string("us-west-1"));
    v.push(str_to_string("us-west-2"));
    v.push(str_to_string("eu-west-1"));
    v.push(str_to_string("eu-west-2"));
    v.push(str_to_string("eu-west-3"));
    v.push(str_to_string("eu-central-1"));
    v.push(str_to_string("eu-north-1"));
    v.push(str_to_string("ap-southeast-1"));
    v.push(str_to_string("ap-southeast-2"));
    v.push(str_to_string("ap-northeast-1"));
    v.push(str_to_string("ap-northeast-2"));
    v.push(str_to_string("ap-south-1"));
    v.push(str_to_string("sa-east-1"));
    v.push(str_to_string("ca-central-1"));
    v.push(str_to_string("me-south-1"));
    v.push(str_to_string("af-south-1"));
    v
}


// ─── Instance info popup ────────────────────────────────────────────────────
/// The two views of the information popup.
#[derive(Debug, Clone, Copy, PartialEq, Eq, Structural)]
pub enum InfoTab {
    Human,
    Json,
}

/// The information popup of an instance, with a search over its lines.
pub struct InstanceInfoPopup {
    pub loading: bool,
    pub tab: InfoTab,
    pub scroll: u16,
    pub human_lines: Vec<String>,
    pub json_lines: Vec<String>,
    pub search_query: String,
    pub search_active: bool,
    /// The positions of the lines that match the search.
    pub search_matches: Vec<usize>,
    /// Which match is the current one.
    pub search_match_idx: usize,
}

/// The values of a list of strings.
pub open spec fn strs(v: Seq<String>) -> Seq<Seq<char>> {
    Seq::new(v.len(), |i: int| v[i]@)
}

/// The positions of the lines, among the first `n`, that contain `q` once
/// lowercased.
pub open spec fn match_positions(lines: Seq<Seq<char>>, q: Seq<char>, n: int) -> Seq<usize>
    decreases n,
{
    if n <= 0 {
        Seq::empty()
    } else {
        let rest = match_positions(lines, q, n - 1);
        if contains_seq(lowercase(lines[n - 1]), q) {
            rest.push((n - 1) as usize)
        } else {
            rest
        }
    }
}

/// The scroll position after jumping to the current match, if there is one.
pub open spec fn jumped(scroll: u16, matches: Seq<usize>, idx: int) -> u16 {
    if 0 <= idx < matches.len() {
        matches[idx] as u16
    } else {
        scroll
    }
}

/// `n` is the popup `a` searching for `q`: the lines of its view that
/// contain `q` regardless of case are the matches, the first of them current
/// and scrolled to; an empty query has no matches and keeps the scroll.
pub open spec fn popup_searched(a: InstanceInfoPopup, q: Seq<char>, n: InstanceInfoPopup) -> bool {
    let m = if q.len() == 0 {
        Seq::<usize>::empty()
    } else {
        match_positions(strs(a.shown()), lowercase(q), a.shown().len() as int)
    };
    &&& n.search_query@ == q
    &&& n.search_matches@ == m
    &&& n.scroll == (if q.len() == 0 {
        a.scroll
    } else {
        jumped(a.scroll, m, 0)
    })
    &&& n == (InstanceInfoPopup {
        search_query: n.search_query,
        search_matches: n.search_matches,
        search_match_idx: 0,
        scroll: n.scroll,
        ..a
    })
}

/// The other view of the popup.
pub open spec fn other_tab(t: InfoTab) -> InfoTab {
    match t {
        InfoTab::Human => InfoTab::Json,
        InfoTab::Json => InfoTab::Human,
    }
}

/// The popup after `scroll_down(amount)`.
pub open spec fn popup_down(o: InstanceInfoPopup, n: InstanceInfoPopup, amount: u16) -> bool {
    &&& n.scroll == ({
        let len = o.shown().len();
        let max: u16 = (if len > 0 {
            (len - 1) as usize
        } else {
            0usize
        }) as u16;
        if o.scroll + amount < max {
            (o.scroll + amount) as u16
        } else {
            max
        }
    })
    &&& n == (InstanceInfoPopup { scroll: n.scroll, ..o })
}

/// The popup after `scroll_up(amount)`.
pub open spec fn popup_up(o: InstanceInfoPopup, n: InstanceInfoPopup, amount: u16) -> bool {
    &&& n.scroll == (if o.scroll >= amount {
        (o.scroll - amount) as u16
    } else {
        0
    })
    &&& n == (InstanceInfoPopup { scroll: n.scroll, ..o })
}

/// The popup after `next_match`.
pub open spec fn match_next(o: InstanceInfoPopup, n: InstanceInfoPopup) -> bool {
    &&& o.search_matches@.len() == 0 ==> n == o
    &&& o.search_matches@.len() > 0 ==> {
        let i = (o.search_match_idx + 1) % (o.search_matches@.len() as int);
        &&& n.search_match_idx == i
        &&& n.scroll == jumped(o.scroll, o.search_matches@, i)
        &&& n == (InstanceInfoPopup {
            search_match_idx: n.search_match_idx,
            scroll: n.scroll,
            ..o
        })
    }
}

/// The popup after `prev_match`.
pub open spec fn match_prev(o: InstanceInfoPopup, n: InstanceInfoPopup) -> bool {
    &&& o.search_matches@.len() == 0 ==> n == o
    &&& o.search_matches@.len() > 0 ==> {
        let i = if o.search_match_idx == 0 {
            o.search_matches@.len() - 1
        } else {
            o.search_match_idx - 1
        };
        &&& n.search_match_idx == i
        &&& n.scroll == jumped(o.scroll, o.search_matches@, i)
        &&& n == (InstanceInfoPopup {
            search_match_idx: n.search_match_idx,
            scroll: n.scroll,
            ..o
        })
    }
}

impl InstanceInfoPopup {
    /// The lines of the current view.
    pub open spec fn shown(&self) -> Seq<String> {
        match self.tab {
            InfoTab::Human => self.human_lines@,
            InfoTab::Json => self.json_lines@,
        }
    }

    /// A popup that waits for its data: no lines, the human view, no search.
    pub fn new_loading() -> (p: InstanceInfoPopup)
        ensures
            p.loading,
            p.tab == InfoTab::Human,
            p.scroll == 0,
            p.human_lines@.len() == 0 && p.json_lines@.len() == 0,
            p.search_query@.len() == 0,
            !p.search_active,
            p.search_matches@.len() == 0,
            p.search_match_idx == 0,
    {
        InstanceInfoPopup {
            loading: true,
            tab: InfoTab::Human,
            scroll: 0,
            human_lines: Vec::new(),
            json_lines: Vec::new(),
            search_query: String::new(),
            search_active: false,
            search_matches: Vec::new(),
            search_match_idx: 0,
        }
    }

    /// The lines of the current view.
    pub fn lines(&self) -> (r: &Vec<String>)
        ensures
            r@ == self.shown(),
    {
        match self.tab {
            InfoTab::Human => &self.human_lines,
            InfoTab::Json => &self.json_lines,
        }
    }

    /// Scrolls down by `n`, at most to the last line.
    pub fn scroll_down(&mut self, amount: u16)
        requires
            old(self).scroll + amount <= u16::MAX,
        ensures
            popup_down(*old(self), *final(self), amount),
    {
        let len = self.lines().len();
        let m: usize = if len > 0 {
            len - 1
        } else {
            0
        };
        let max: u16 = #[verifier::truncate] (m as u16);
        let want = self.scroll + amount;
        self.scroll = if want < max {
            want
        } else {
            max
        };
    }

    /// Scrolls up by `n`, at most to the first line.
    pub fn scroll_up(&mut self, amount: u16)
        ensures
            popup_up(*old(self), *final(self), amount),
    {
        self.scroll = self.scroll.saturating_sub(amount);
    }

    fn jump_to_current_match(&mut self)
        ensures
            final(self).scroll == jumped(
                old(self).scroll,
                old(self).search_matches@,
                old(self).search_match_idx as int,
            ),
            *final(self) == (InstanceInfoPopup { scroll: final(self).scroll, ..*old(self) }),
    {
        if self.search_match_idx < self.search_matches.len() {
            let line_idx = self.search_matches[self.search_match_idx];
            self.scroll = #[verifier::truncate] (line_idx as u16);
        }
    }

    /// Finds the lines of the current view that contain the query, without
    /// regard to case, makes the first match current and scrolls to it; an
    /// empty query clears the matches.
    pub fn update_search(&mut self)
        ensures
            old(self).search_query@.len() == 0 ==> *final(self) == (InstanceInfoPopup {
                search_matches: final(self).search_matches,
                search_match_idx: 0,
                ..*old(self)
            }) && final(self).search_matches@.len() == 0,
            old(self).search_query@.len() > 0 ==> {
                let m = match_positions(
                    strs(old(self).shown()),
                    lowercase(old(self).search_query@),
                    old(self).shown().len() as int,
                );
                &&& final(self).search_matches@ == m
                &&& final(self).search_match_idx == 0
                &&& final(self).scroll == jumped(old(self).scroll, m, 0)
                &&& *final(self) == (InstanceInfoPopup {
                    search_matches: final(self).search_matches,
                    search_match_idx: 0,
                    scroll: final(self).scroll,
                    ..*old(self)
                })
            },
    {
        if self.search_query.as_str().unicode_len() == 0 {
            self.search_matches = Vec::new();
            self.search_match_idx = 0;
            return ;
        }
        let query = to_lower(self.search_query.as_str());
        let mut found: Vec<usize> = Vec::new();
        {
            let lines = self.lines();
            let ghost ls = strs(lines@);
            let mut i: usize = 0;
            while i < lines.len()
                invariant
                    i <= lines@.len(),
                    ls == strs(lines@),
                    found@ == match_positions(ls, query@, i as int),
                decreases lines@.len() - i,
            {
                let l = to_lower(lines[i].as_str());
                if str_contains(l.as_str(), query.as_str()) {
                    found.push(i);
                }
                i = i + 1;
            }
        }
        self.search_matches = found;
        self.search_match_idx = 0;
        self.jump_to_current_match();
    }

    /// Adds `c` to the search query and searches again.
    pub fn push_search_char(&mut self, c: char)
        ensures
            popup_searched(*old(self), old(self).search_query@.push(c), *final(self)),
    {
        push_char(&mut self.search_query, c);
        self.update_search();
    }

    /// Removes the last character of the search query and searches again.
    pub fn pop_search_char(&mut self)
        ensures
            popup_searched(*old(self), without_last(old(self).search_query@), *final(self)),
    {
        pop_last(&mut self.search_query);
        self.update_search();
        proof {
            if self.search_query@.len() == 0 {
                assert(self.search_matches@ =~= Seq::<usize>::empty());
            }
        }
    }

    /// Empties the search query and searches again.
    pub fn clear_search(&mut self)
        ensures
            popup_searched(*old(self), Seq::empty(), *final(self)),
    {
        self.search_query = String::new();
        self.update_search();
        proof {
            if self.search_query@.len() == 0 {
                assert(self.search_matches@ =~= Seq::<usize>::empty());
            }
        }
    }

    /// Starts (`active`) or ends typing a search, with an empty query.
    pub fn restart_search(&mut self, active: bool)
        ensures
            popup_searched(InstanceInfoPopup { search_active: active, ..*old(self) }, Seq::empty(), *final(self)),
    {
        self.search_active = active;
        self.search_query = String::new();
        self.update_search();
        proof {
            if self.search_query@.len() == 0 {
                assert(self.search_matches@ =~= Seq::<usize>::empty());
            }
        }
    }

    /// Shows the other view from its top and searches it again.
    pub fn switch_tab(&mut self)
        ensures
            popup_searched(
                InstanceInfoPopup { tab: other_tab(old(self).tab), scroll: 0, ..*old(self) },
                old(self).search_query@,
                *final(self),
            ),
    {
        self.tab = match self.tab {
            InfoTab::Human => InfoTab::Json,
            InfoTab::Json => InfoTab::Human,
        };
        self.scroll = 0;
        self.update_search();
        proof {
            if self.search_query@.len() == 0 {
                assert(self.search_matches@ =~= Seq::<usize>::empty());
            }
        }
    }

    /// Makes the next match current (wrapping) and scrolls to it.
    pub fn next_match(&mut self)
        ensures
            match_next(*old(self), *final(self)),
    {
        if self.search_matches.len() == 0 {
            return ;
        }
        self.search_match_idx = ((self.search_match_idx as u128 + 1) % (self.search_matches.len() as u128)) as usize;
        self.jump_to_current_match();
    }

    /// Makes the previous match current (wrapping) and scrolls to it.
    pub fn prev_match(&mut self)
        ensures
            match_prev(*old(self), *final(self)),
    {
        if self.search_matches.len() == 0 {
            return ;
        }
        self.search_match_idx = if self.search_match_idx == 0 {
            self.search_matches.len() - 1
        } else {
            self.search_match_idx - 1
        };
        self.jump_to_current_match();
    }
}


// ─── Instances and SSM sessions ─────────────────────────────────────────────
/// A running EC2 instance as listed.
#[derive(Debug, Clone)]
pub struct Ec2Instance {
    pub instance_id: String,
    pub name: String,
    pub _state: String,
    pub private_ip: String,
    pub _instance_type: String,
    /// `windows` or `linux`.
    pub platform: String,
}

/// Whether an SSM terminal is still connected.
#[derive(Debug, Clone, Copy, PartialEq, Eq, Structural)]
pub enum SsmConnectionStatus {
    Disconnected,
    Connected,
}

/// An SSM terminal session to one instance. Its terminal (the pseudo
/// terminal and the screen it draws) is kept by the caller, at the same
/// position in its own list.
pub struct SsmSession {
    pub instance_id: String,
    pub instance_name: String,
    pub status: SsmConnectionStatus,
}

/// Which pane of the tab has the keyboard.
#[derive(Debug, Clone, Copy, PartialEq, Eq, Structural)]
pub enum InstanceFocus {
    RegionList,
    InstanceList,
    SsmTerminal,
}

/// The Instances tab's state.
pub struct InstancesState {
    pub profiles: Vec<String>,
    pub active_profile_idx: usize,
    pub region_idx: usize,
    pub regions: Vec<String>,
    pub instances: Vec<Ec2Instance>,
    pub selected_instance: usize,
    pub loading_instances: bool,
    pub focus: InstanceFocus,
    pub region_dropdown_open: bool,
    pub ssm_sessions: Vec<SsmSession>,
    pub active_session_idx: usize,
    /// Rows and columns of the terminal panel.
    pub pty_size: (u16, u16),
    pub last_error: Option<String>,
    pub search_query: String,
    pub search_active: bool,
    /// Positions of the instances that match the search.
    pub filtered_instances: Vec<usize>,
    pub show_info_popup: bool,
    pub info_popup: Option<InstanceInfoPopup>,
}

/// What the caller runs for the state: a listing of instances, the
/// description of one, or an SSM session to one.
#[derive(Debug, Clone)]
pub enum InstancesRequest {
    ListInstances { profile: String, region: String },
    DescribeInstance { instance_id: String, profile: String, region: String },
    StartSession { instance_id: String, instance_name: String, profile: String, region: String },
}

/// The first position in `v` holding `x`.
pub open spec fn position_of(v: Seq<usize>, x: usize, from: int) -> Option<int>
    decreases v.len() - from,
{
    if from < 0 || from >= v.len() {
        None
    } else if v[from] == x {
        Some(from)
    } else {
        position_of(v, x, from + 1)
    }
}

/// An instance matches the lowercased query `q`: by name or id (lowercased),
/// or by private address (as it is).
pub open spec fn instance_matches(i: Ec2Instance, q: Seq<char>) -> bool {
    contains_seq(lowercase(i.name@), q) || contains_seq(lowercase(i.instance_id@), q)
        || contains_seq(i.private_ip@, q)
}

/// The positions of the instances, among the first `n`, that match `q`.
pub open spec fn instance_positions(v: Seq<Ec2Instance>, q: Seq<char>, n: int) -> Seq<usize>
    decreases n,
{
    if n <= 0 {
        Seq::empty()
    } else {
        let rest = instance_positions(v, q, n - 1);
        if instance_matches(v[n - 1], q) {
            rest.push((n - 1) as usize)
        } else {
            rest
        }
    }
}

fn position_in(v: &Vec<usize>, x: usize) -> (r: Option<usize>)
    ensures
        match r {
            Some(i) => position_of(v@, x, 0) == Some(i as int) && i < v@.len(),
            None => position_of(v@, x, 0) is None,
        },
{
    let mut i: usize = 0;
    while i < v.len()
        invariant
            i <= v@.len(),
            position_of(v@, x, 0) == position_of(v@, x, i as int),
        decreases v@.len() - i,
    {
        if v[i] == x {
            return Some(i);
        }
        i = i + 1;
    }
    None
}

/// The tab after `next_profile`.
pub open spec fn profile_next(o: InstancesState, n: InstancesState) -> bool {
    &&& n == (InstancesState {
        active_profile_idx: if o.profiles@.len() > 0 {
            ((o.active_profile_idx + 1) % (o.profiles@.len() as int)) as usize
        } else {
            o.active_profile_idx
        },
        ..o
    })
}

/// The tab after `prev_profile`.
pub open spec fn profile_prev(o: InstancesState, n: InstancesState) -> bool {
    &&& n == (InstancesState {
        active_profile_idx: if o.profiles@.len() == 0 {
            o.active_profile_idx
        } else if o.active_profile_idx == 0 {
            (o.profiles@.len() - 1) as usize
        } else {
            (o.active_profile_idx - 1) as usize
        },
        ..o
    })
}

/// The tab after `next_region`.
pub open spec fn region_next(o: InstancesState, n: InstancesState) -> bool {
    &&& n == (InstancesState {
        region_idx: ((o.region_idx + 1) % (o.regions@.len() as int)) as usize,
        ..o
    })
}

/// The tab after `prev_region`.
pub open spec fn region_prev(o: InstancesState, n: InstancesState) -> bool {
    &&& n == (InstancesState {
        region_idx: if o.region_idx == 0 {
            (o.regions@.len() - 1) as usize
        } else {
            (o.region_idx - 1) as usize
        },
        ..o
    })
}

/// The tab after `next_instance`.
pub open spec fn instance_next(o: InstancesState, n: InstancesState) -> bool {
    &&& n.wf()
    &&& n == (InstancesState {
        selected_instance: ({
            let f = o.filtered_instances@;
            if f.len() > 0 {
                let pos = match position_of(f, o.selected_instance, 0) {
                    Some(p) => p,
                    None => 0,
                };
                f[(pos + 1) % (f.len() as int)]
            } else if o.instances@.len() > 0 {
                ((o.selected_instance + 1) % (o.instances@.len() as int)) as usize
            } else {
                o.selected_instance
            }
        }),
        ..o
    })
}

/// The tab after `prev_instance`.
pub open spec fn instance_prev(o: InstancesState, n: InstancesState) -> bool {
    &&& n.wf()
    &&& n == (InstancesState {
        selected_instance: ({
            let f = o.filtered_instances@;
            if f.len() > 0 {
                let pos = match position_of(f, o.selected_instance, 0) {
                    Some(p) => p,
                    None => 0,
                };
                f[if pos == 0 {
                    f.len() - 1
                } else {
                    pos - 1
                }]
            } else if o.instances@.len() == 0 {
                o.selected_instance
            } else if o.selected_instance == 0 {
                (o.instances@.len() - 1) as usize
            } else {
                (o.selected_instance - 1) as usize
            }
        }),
        ..o
    })
}

/// The tab after `cycle_focus`.
pub open spec fn focus_cycled(o: InstancesState, n: InstancesState) -> bool {
    &&& n == (InstancesState {
        focus: match o.focus {
            InstanceFocus::RegionList => InstanceFocus::InstanceList,
            InstanceFocus::InstanceList => InstanceFocus::SsmTerminal,
            InstanceFocus::SsmTerminal => InstanceFocus::RegionList,
        },
        ..o
    })
}

/// The tab after `next_session`.
pub open spec fn session_next(o: InstancesState, n: InstancesState) -> bool {
    &&& n == (InstancesState {
        active_session_idx: if o.ssm_sessions@.len() > 1 {
            ((o.active_session_idx + 1) % (o.ssm_sessions@.len() as int)) as usize
        } else {
            o.active_session_idx
        },
        ..o
    })
}

/// The tab after `prev_session`.
pub open spec fn session_prev(o: InstancesState, n: InstancesState) -> bool {
    &&& n == (InstancesState {
        active_session_idx: if o.ssm_sessions@.len() <= 1 {
            o.active_session_idx
        } else if o.active_session_idx == 0 {
            (o.ssm_sessions@.len() - 1) as usize
        } else {
            (o.active_session_idx - 1) as usize
        },
        ..o
    })
}

/// `n` is the tab `a` searching for `q`: the instances filtered by `q`, the
/// selected one kept where it is among a non-empty result, else the first
/// match selected; an empty query clears the filter.
pub open spec fn instance_searched(a: InstancesState, q: Seq<char>, n: InstancesState) -> bool {
    let f = if q.len() == 0 {
        Seq::<usize>::empty()
    } else {
        instance_positions(a.instances@, lowercase(q), a.instances@.len() as int)
    };
    &&& n.search_query@ == q
    &&& n.filtered_instances@ == f
    &&& n.selected_instance == (if f.len() > 0 && !f.contains(a.selected_instance) {
        f[0]
    } else {
        a.selected_instance
    })
    &&& n == (InstancesState {
        search_query: n.search_query,
        filtered_instances: n.filtered_instances,
        selected_instance: n.selected_instance,
        ..a
    })
}

impl InstancesState {
    /// The state is well formed: the region index points into the regions,
    /// the selected instance and the search matches into the instances and
    /// the active session into the sessions, where there are any.
    pub open spec fn wf(&self) -> bool {
        &&& self.region_idx < self.regions@.len()
        &&& (self.instances@.len() > 0 ==> self.selected_instance < self.instances@.len())
        &&& (self.instances@.len() > 0 ==> forall|k: int|
            0 <= k < self.filtered_instances@.len() ==> #[trigger] self.filtered_instances@[k]
                < self.instances@.len())
        &&& (self.ssm_sessions@.len() > 0 ==> self.active_session_idx < self.ssm_sessions@.len())
    }

    /// A fresh state: no profiles, region `us-west-2`, the instance list
    /// focused, a 24×80 terminal panel, nothing loaded.
    /// No profiles yet, the fourth region of `region_names` chosen, no
    /// instances, no SSM sessions, a 24×80 terminal size, no search, no popup,
    /// the instance list focused.
    pub open spec fn fresh(&self) -> bool {
        &&& self.profiles@.len() == 0 && self.active_profile_idx == 0
        &&& self.region_idx == 3
        &&& self.regions@.len() == 18
        &&& forall|i: int| 0 <= i < 18 ==> (#[trigger] self.regions@[i])@ == region_names()[i]
        &&& self.instances@.len() == 0 && self.selected_instance == 0 && !self.loading_instances
        &&& self.focus == InstanceFocus::InstanceList
        &&& !self.region_dropdown_open
        &&& self.ssm_sessions@.len() == 0 && self.active_session_idx == 0
        &&& self.pty_size == (24u16, 80u16)
        &&& self.last_error is None
        &&& self.search_query@.len() == 0 && !self.search_active && self.filtered_instances@.len() == 0
        &&& !self.show_info_popup && self.info_popup is None
    }

    /// A fresh Instances tab (see `fresh`).
    pub fn new() -> (s: Self)
        ensures
            s.wf(),
            s.fresh(),
    {
        InstancesState {
            profiles: Vec::new(),
            active_profile_idx: 0,
            region_idx: 3,
            regions: regions_list(),
            instances: Vec::new(),
            selected_instance: 0,
            loading_instances: false,
            focus: InstanceFocus::InstanceList,
            region_dropdown_open: false,
            ssm_sessions: Vec::new(),
            active_session_idx: 0,
            pty_size: (24, 80),
            last_error: None,
            search_query: String::new(),
            search_active: false,
            filtered_instances: Vec::new(),
            show_info_popup: false,
            info_popup: None,
        }
    }

    /// The selected profile, if any.
    pub fn active_profile(&self) -> (r: Option<&String>)
        ensures
            match r {
                Some(p) => self.active_profile_idx < self.profiles@.len() && *p
                    == self.profiles@[self.active_profile_idx as int],
                None => self.active_profile_idx >= self.profiles@.len(),
            },
    {
        if self.active_profile_idx < self.profiles.len() {
            Some(&self.profiles[self.active_profile_idx])
        } else {
            None
        }
    }

    /// The selected region.
    pub fn active_region(&self) -> (r: &String)
        requires
            self.region_idx < self.regions@.len(),
        ensures
            *r == self.regions@[self.region_idx as int],
    {
        &self.regions[self.region_idx]
    }

    /// The next profile, wrapping around.
    pub fn next_profile(&mut self)
        ensures
            profile_next(*old(self), *final(self)),
    {
        if self.profiles.len() > 0 {
            self.active_profile_idx = ((self.active_profile_idx as u128 + 1) % (self.profiles.len() as u128)) as usize;
        }
    }

    /// The previous profile, wrapping around.
    pub fn prev_profile(&mut self)
        ensures
            profile_prev(*old(self), *final(self)),
    {
        if self.profiles.len() > 0 {
            self.active_profile_idx = if self.active_profile_idx == 0 {
                self.profiles.len() - 1
            } else {
                self.active_profile_idx - 1
            };
        }
    }

    /// The next region, wrapping around.
    pub fn next_region(&mut self)
        requires
            old(self).regions@.len() > 0,
        ensures
            region_next(*old(self), *final(self)),
    {
        self.region_idx = ((self.region_idx as u128 + 1) % (self.regions.len() as u128)) as usize;
    }

    /// The previous region, wrapping around.
    pub fn prev_region(&mut self)
        requires
            old(self).regions@.len() > 0,
        ensures
            region_prev(*old(self), *final(self)),
    {
        self.region_idx = if self.region_idx == 0 {
            self.regions.len() - 1
        } else {
            self.region_idx - 1
        };
    }

    /// The next instance: among the search matches where there are any (from
    /// the selected one's place among them, or the first), else among all
    /// instances; wrapping around.
    pub fn next_instance(&mut self)
        requires
            old(self).wf(),
        ensures
            instance_next(*old(self), *final(self)),
    {
        if self.filtered_instances.len() > 0 {
            let pos = match position_in(&self.filtered_instances, self.selected_instance) {
                Some(p) => p,
                None => 0,
            };
            let k = ((pos as u128 + 1) % (self.filtered_instances.len() as u128)) as usize;
            self.selected_instance = self.filtered_instances[k];
        } else if self.instances.len() > 0 {
            self.selected_instance = ((self.selected_instance as u128 + 1) % (self.instances.len() as u128)) as usize;
        }
    }

    /// The previous instance, as `next_instance` but backwards.
    pub fn prev_instance(&mut self)
        requires
            old(self).wf(),
        ensures
            instance_prev(*old(self), *final(self)),
    {
        if self.filtered_instances.len() > 0 {
            let pos = match position_in(&self.filtered_instances, self.selected_instance) {
                Some(p) => p,
                None => 0,
            };
            let k = if pos == 0 {
                self.filtered_instances.len() - 1
            } else {
                pos - 1
            };
            self.selected_instance = self.filtered_instances[k];
        } else if self.instances.len() > 0 {
            self.selected_instance = if self.selected_instance == 0 {
                self.instances.len() - 1
            } else {
                self.selected_instance - 1
            };
        }
    }

    /// Filters the instances by the search query (see `instance_matches`);
    /// where the selected instance is not among a non-empty result, the first
    /// match is selected. An empty query clears the filter.
    pub fn update_instance_search(&mut self)
        requires
            old(self).wf(),
        ensures
            final(self).wf(),
            old(self).search_query@.len() == 0 ==> final(self).filtered_instances@.len() == 0
                && *final(self) == (InstancesState { filtered_instances: final(self).filtered_instances, ..*old(self) }),
            old(self).search_query@.len() > 0 ==> {
                let f = instance_positions(
                    old(self).instances@,
                    lowercase(old(self).search_query@),
                    old(self).instances@.len() as int,
                );
                &&& final(self).filtered_instances@ == f
                &&& final(self).selected_instance == (if f.len() > 0 && !f.contains(
                    old(self).selected_instance,
                ) {
                    f[0]
                } else {
                    old(self).selected_instance
                })
                &&& *final(self) == (InstancesState {
                    filtered_instances: final(self).filtered_instances,
                    selected_instance: final(self).selected_instance,
                    ..*old(self)
                })
            },
    {
        if self.search_query.as_str().unicode_len() == 0 {
            self.filtered_instances = Vec::new();
            return ;
        }
        let query = to_lower(self.search_query.as_str());
        let mut found: Vec<usize> = Vec::new();
        let mut i: usize = 0;
        while i < self.instances.len()
            invariant
                i <= self.instances@.len(),
                found@ == instance_positions(self.instances@, query@, i as int),
                forall|k: int| 0 <= k < found@.len() ==> #[trigger] found@[k] < i,
            decreases self.instances@.len() - i,
        {
            let inst = &self.instances[i];
            let name = to_lower(inst.name.as_str());
            let id = to_lower(inst.instance_id.as_str());
            if str_contains(name.as_str(), query.as_str()) || str_contains(id.as_str(), query.as_str())
                || str_contains(inst.private_ip.as_str(), query.as_str()) {
                found.push(i);
            }
            i = i + 1;
        }
        let present = match position_in(&found, self.selected_instance) {
            Some(_) => true,
            None => false,
        };
        proof {
            lemma_position_of(found@, self.selected_instance, 0);
        }
        if found.len() > 0 && !present {
            self.selected_instance = found[0];
        }
        self.filtered_instances = found;
    }

    /// Adds `c` to the search query and filters again.
    pub fn push_search_char(&mut self, c: char)
        requires
            old(self).wf(),
        ensures
            final(self).wf(),
            instance_searched(*old(self), old(self).search_query@.push(c), *final(self)),
    {
        push_char(&mut self.search_query, c);
        self.update_instance_search();
    }

    /// Removes the last character of the search query and filters again.
    pub fn pop_search_char(&mut self)
        requires
            old(self).wf(),
        ensures
            final(self).wf(),
            instance_searched(*old(self), without_last(old(self).search_query@), *final(self)),
    {
        pop_last(&mut self.search_query);
        self.update_instance_search();
        proof {
            if self.search_query@.len() == 0 {
                assert(self.filtered_instances@ =~= Seq::<usize>::empty());
            }
        }
    }

    /// Moves the focus: region list, instance list, terminal, and round again.
    pub fn cycle_focus(&mut self)
        ensures
            focus_cycled(*old(self), *final(self)),
    {
        self.focus = match self.focus {
            InstanceFocus::RegionList => InstanceFocus::InstanceList,
            InstanceFocus::InstanceList => InstanceFocus::SsmTerminal,
            InstanceFocus::SsmTerminal => InstanceFocus::RegionList,
        };
    }

    /// The active SSM session, if its index points at one.
    pub fn active_session(&self) -> (r: Option<&SsmSession>)
        ensures
            match r {
                Some(s) => self.active_session_idx < self.ssm_sessions@.len() && *s
                    == self.ssm_sessions@[self.active_session_idx as int],
                None => self.active_session_idx >= self.ssm_sessions@.len(),
            },
    {
        if self.active_session_idx < self.ssm_sessions.len() {
            Some(&self.ssm_sessions[self.active_session_idx])
        } else {
            None
        }
    }

    /// The next SSM session, wrapping around, where there are at least two.
    pub fn next_session(&mut self)
        ensures
            session_next(*old(self), *final(self)),
    {
        if self.ssm_sessions.len() > 1 {
            self.active_session_idx = ((self.active_session_idx as u128 + 1) % (self.ssm_sessions.len() as u128)) as usize;
        }
    }

    /// The previous SSM session, wrapping around, where there are at least
    /// two.
    pub fn prev_session(&mut self)
        ensures
            session_prev(*old(self), *final(self)),
    {
        if self.ssm_sessions.len() > 1 {
            self.active_session_idx = if self.active_session_idx == 0 {
                self.ssm_sessions.len() - 1
            } else {
                self.active_session_idx - 1
            };
        }
    }
}

/// `position_of` finds nothing exactly when `x` is not there.
pub proof fn lemma_position_of_pub(v: Seq<usize>, x: usize, from: int)
    requires
        0 <= from,
    ensures
        position_of(v, x, from) is None <==> forall|j: int| from <= j < v.len() ==> v[j] != x,
{
    lemma_position_of(v, x, from);
}

proof fn lemma_position_of(v: Seq<usize>, x: usize, from: int)
    requires
        0 <= from,
    ensures
        position_of(v, x, from) is None <==> forall|j: int| from <= j < v.len() ==> v[j] != x,
    decreases v.len() - from,
{
    if from < v.len() && v[from] != x {
        lemma_position_of(v, x, from + 1);
    }
}


// ─── Results and requests ───────────────────────────────────────────────────
fn clone_str(s: &String) -> (r: String)
    ensures
        r@ == s@,
{
    s.clone()
}

/// The tab after `fetch_instances` returned `r`.
pub open spec fn instances_fetched(o: InstancesState, n: InstancesState, r: Option<InstancesRequest>) -> bool {
    &&& n.wf()
    &&& o.active_profile_idx >= o.profiles@.len() ==> r is None && n
        == o
    &&& o.active_profile_idx < o.profiles@.len() ==> {
        &&& r matches Some(InstancesRequest::ListInstances { profile, region })
        &&& profile@ == o.profiles@[o.active_profile_idx as int]@
        &&& region@ == o.regions@[o.region_idx as int]@
        &&& n.instances@.len() == 0
        &&& n == (InstancesState {
            loading_instances: true,
            instances: n.instances,
            ..o
        })
    }
}

impl InstancesState {
    /// Takes a fetched list of instances: it replaces the list, the first is
    /// selected, loading ends and the search is cleared.
    pub fn on_instances(&mut self, instances: Vec<Ec2Instance>)
        requires
            old(self).wf(),
        ensures
            final(self).wf(),
            *final(self) == (InstancesState {
                instances: final(self).instances,
                selected_instance: 0,
                loading_instances: false,
                search_query: final(self).search_query,
                search_active: false,
                filtered_instances: final(self).filtered_instances,
                ..*old(self)
            }),
            final(self).instances@ == instances@,
            final(self).search_query@.len() == 0,
            final(self).filtered_instances@.len() == 0,
    {
        self.instances = instances;
        self.selected_instance = 0;
        self.loading_instances = false;
        self.search_query = String::new();
        self.search_active = false;
        self.filtered_instances = Vec::new();
    }

    /// Takes the data of the information popup.
    pub fn on_info_popup(&mut self, popup: InstanceInfoPopup)
        ensures
            *final(self) == (InstancesState { info_popup: Some(popup), ..*old(self) }),
    {
        self.info_popup = Some(popup);
    }

    /// Takes the news that the terminal of session `idx` reached its end
    /// (`eof`); such a session is disconnected. Output itself is drawn by the
    /// caller.
    pub fn on_pty_output(&mut self, idx: usize, eof: bool)
        requires
            idx < old(self).ssm_sessions@.len(),
        ensures
            final(self).ssm_sessions@.len() == old(self).ssm_sessions@.len(),
            forall|k: int|
                0 <= k < final(self).ssm_sessions@.len() && k != idx ==> #[trigger] final(self).ssm_sessions@[k]
                    == old(self).ssm_sessions@[k],
            final(self).ssm_sessions@[idx as int].instance_id == old(self).ssm_sessions@[idx as int].instance_id,
            final(self).ssm_sessions@[idx as int].instance_name == old(self).ssm_sessions@[idx as int].instance_name,
            final(self).ssm_sessions@[idx as int].status == (if eof {
                SsmConnectionStatus::Disconnected
            } else {
                old(self).ssm_sessions@[idx as int].status
            }),
            *final(self) == (InstancesState { ssm_sessions: final(self).ssm_sessions, ..*old(self) }),
    {
        if eof {
            let mut s = self.ssm_sessions.remove(idx);
            s.status = SsmConnectionStatus::Disconnected;
            self.ssm_sessions.insert(idx, s);
        }
    }

    /// Starts listing the instances of the selected profile and region: the
    /// list is emptied and loading begins. Without a profile nothing changes.
    pub fn fetch_instances(&mut self) -> (r: Option<InstancesRequest>)
        requires
            old(self).wf(),
        ensures
            instances_fetched(*old(self), *final(self), r),
    {
        let profile = match self.active_profile() {
            Some(p) => clone_str(p),
            None => return None,
        };
        let region = clone_str(self.active_region());
        self.loading_instances = true;
        self.instances = Vec::new();
        Some(InstancesRequest::ListInstances { profile, region })
    }
}


/// The first SSM session to instance `id`.
pub open spec fn session_for(v: Seq<SsmSession>, id: Seq<char>, from: int) -> Option<int>
    decreases v.len() - from,
{
    if from < 0 || from >= v.len() {
        None
    } else if v[from].instance_id@ == id {
        Some(from)
    } else {
        session_for(v, id, from + 1)
    }
}

/// The tab after `fetch_instance_info` returned `r`.
pub open spec fn info_fetched(o: InstancesState, n: InstancesState, r: Option<InstancesRequest>) -> bool {
    &&& n.wf()
    &&& o.instances@.len() == 0 || o.active_profile_idx >= o.profiles@.len()
        ==> r is None && n == o
    &&& o.instances@.len() > 0 && o.active_profile_idx < o.profiles@.len()
        ==> {
        &&& r matches Some(InstancesRequest::DescribeInstance { instance_id, profile, region })
        &&& instance_id@ == o.instances@[o.selected_instance as int].instance_id@
        &&& profile@ == o.profiles@[o.active_profile_idx as int]@
        &&& region@ == o.regions@[o.region_idx as int]@
        &&& n.info_popup matches Some(p) && p.loading && p.tab == InfoTab::Human
            && p.human_lines@.len() == 0 && p.json_lines@.len() == 0 && p.scroll == 0
            && p.search_query@.len() == 0 && !p.search_active
            && p.search_matches@.len() == 0 && p.search_match_idx == 0
        &&& n == (InstancesState {
            show_info_popup: true,
            info_popup: n.info_popup,
            ..o
        })
    }
}

/// The tab after `connect_ssm` returned `r`.
pub open spec fn ssm_connecting(o: InstancesState, n: InstancesState, r: Option<InstancesRequest>) -> bool {
    &&& n.wf()
    &&& o.instances@.len() == 0 ==> r is None && n == o
    &&& o.instances@.len() > 0 ==> {
        let inst = o.instances@[o.selected_instance as int];
        match session_for(o.ssm_sessions@, inst.instance_id@, 0) {
            Some(k) => r is None && n == (InstancesState {
                active_session_idx: k as usize,
                last_error: None,
                ..o
            }),
            None => if o.active_profile_idx < o.profiles@.len() {
                &&& r matches Some(
                    InstancesRequest::StartSession { instance_id, instance_name, profile, region },
                )
                &&& instance_id@ == inst.instance_id@
                &&& instance_name@ == inst.name@
                &&& profile@ == o.profiles@[o.active_profile_idx as int]@
                &&& region@ == o.regions@[o.region_idx as int]@
                &&& n == o
            } else {
                r is None && n == o
            },
        }
    }
}

/// The tab after `disconnect_ssm` returned `r`.
pub open spec fn ssm_disconnected(o: InstancesState, n: InstancesState, r: Option<usize>) -> bool {
    &&& o.ssm_sessions@.len() == 0 ==> r is None && n == o
    &&& o.ssm_sessions@.len() > 0 ==> {
        let i = o.active_session_idx;
        let rest = o.ssm_sessions@.remove(i as int);
        &&& r == Some(i)
        &&& n.ssm_sessions@ == rest
        &&& n == (InstancesState {
            ssm_sessions: n.ssm_sessions,
            active_session_idx: if rest.len() > 0 && i >= rest.len() {
                (rest.len() - 1) as usize
            } else {
                i
            },
            ..o
        })
    }
}

impl InstancesState {
    /// Opens the information popup of the selected instance and returns the
    /// request for its description. Without instances or a profile nothing
    /// changes.
    pub fn fetch_instance_info(&mut self) -> (r: Option<InstancesRequest>)
        requires
            old(self).wf(),
            old(self).instances@.len() > 0 ==> old(self).selected_instance < old(self).instances@.len(),
        ensures
            info_fetched(*old(self), *final(self), r),
    {
        if self.instances.len() == 0 {
            return None;
        }
        let instance_id = clone_str(&self.instances[self.selected_instance].instance_id);
        let profile = match self.active_profile() {
            Some(p) => clone_str(p),
            None => return None,
        };
        let region = clone_str(self.active_region());
        self.show_info_popup = true;
        self.info_popup = Some(InstanceInfoPopup::new_loading());
        Some(InstancesRequest::DescribeInstance { instance_id, profile, region })
    }

    /// Connects to the selected instance: where a session to it exists, it
    /// becomes the active one; otherwise the request for a new session is
    /// returned (where a profile is selected). Without instances nothing
    /// changes.
    pub fn connect_ssm(&mut self) -> (r: Option<InstancesRequest>)
        requires
            old(self).wf(),
            old(self).instances@.len() > 0 ==> old(self).selected_instance < old(self).instances@.len(),
        ensures
            ssm_connecting(*old(self), *final(self), r),
    {
        if self.instances.len() == 0 {
            return None;
        }
        let inst = &self.instances[self.selected_instance];
        let instance_id = clone_str(&inst.instance_id);
        let instance_name = clone_str(&inst.name);
        let mut k: usize = 0;
        while k < self.ssm_sessions.len()
            invariant
                k <= self.ssm_sessions@.len(),
                *self == *old(self),
                self.wf(),
                self.instances@.len() > 0,
                self.selected_instance < self.instances@.len(),
                instance_id@ == self.instances@[self.selected_instance as int].instance_id@,
                instance_name@ == self.instances@[self.selected_instance as int].name@,
                session_for(self.ssm_sessions@, instance_id@, 0) == session_for(
                    self.ssm_sessions@,
                    instance_id@,
                    k as int,
                ),
            decreases self.ssm_sessions@.len() - k,
        {
            if str_eq(self.ssm_sessions[k].instance_id.as_str(), instance_id.as_str()) {
                self.active_session_idx = k;
                self.last_error = None;
                return None;
            }
            k = k + 1;
        }
        let profile = match self.active_profile() {
            Some(p) => clone_str(p),
            None => return None,
        };
        let region = clone_str(self.active_region());
        Some(InstancesRequest::StartSession { instance_id, instance_name, profile, region })
    }

    /// Records a newly opened SSM session of `rows` × `cols`: it is added,
    /// connected, and becomes the active one.
    pub fn record_connected(&mut self, instance_id: String, instance_name: String, rows: u16, cols: u16)
        ensures
            final(self).ssm_sessions@ == old(self).ssm_sessions@.push(
                SsmSession { instance_id, instance_name, status: SsmConnectionStatus::Connected },
            ),
            *final(self) == (InstancesState {
                ssm_sessions: final(self).ssm_sessions,
                active_session_idx: old(self).ssm_sessions@.len() as usize,
                pty_size: (rows, cols),
                last_error: None,
                ..*old(self)
            }),
    {
        self.ssm_sessions.push(
            SsmSession { instance_id, instance_name, status: SsmConnectionStatus::Connected },
        );
        self.active_session_idx = self.ssm_sessions.len() - 1;
        self.pty_size = (rows, cols);
        self.last_error = None;
    }

    /// Records that opening an SSM session failed with `err`.
    pub fn record_connect_error(&mut self, err: String)
        ensures
            *final(self) == (InstancesState { last_error: Some(err), ..*old(self) }),
    {
        self.last_error = Some(err);
    }

    /// Disconnects and removes the active session; the active index is
    /// clamped into the remaining ones. Returns the position removed.
    pub fn disconnect_ssm(&mut self) -> (r: Option<usize>)
        requires
            old(self).ssm_sessions@.len() > 0 ==> old(self).active_session_idx < old(self).ssm_sessions@.len(),
        ensures
            ssm_disconnected(*old(self), *final(self), r),
    {
        if self.ssm_sessions.len() == 0 {
            return None;
        }
        let i = self.active_session_idx;
        self.ssm_sessions.remove(i);
        if self.ssm_sessions.len() > 0 && self.active_session_idx >= self.ssm_sessions.len() {
            self.active_session_idx = self.ssm_sessions.len() - 1;
        }
        Some(i)
    }

    /// The session keyboard input goes to: the active one, where it is
    /// connected.
    pub fn input_session(&self) -> (r: Option<usize>)
        ensures
            r == (if self.active_session_idx < self.ssm_sessions@.len()
                && self.ssm_sessions@[self.active_session_idx as int].status
                == SsmConnectionStatus::Connected {
                Some(self.active_session_idx)
            } else {
                None
            }),
    {
        if self.active_session_idx < self.ssm_sessions.len()
            && self.ssm_sessions[self.active_session_idx].status == SsmConnectionStatus::Connected {
            Some(self.active_session_idx)
        } else {
            None
        }
    }

    /// Takes a new panel size: returns whether it changed (and every terminal
    /// is to be resized to it).
    pub fn resize_pty(&mut self, rows: u16, cols: u16) -> (r: bool)
        ensures
            r == (old(self).pty_size != (rows, cols)),
            *final(self) == (InstancesState { pty_size: (rows, cols), ..*old(self) }),
    {
        if self.pty_size.0 == rows && self.pty_size.1 == cols {
            return false;
        }
        self.pty_size = (rows, cols);
        true
    }
}

} // verus!
