use vstd::prelude::*;

use crate::graph::NodeId;

verus! {

/// A named, ordered collection of node ids.
pub struct Group {
    pub name: String,
    pub nodes: Vec<NodeId>,
}

impl Group {
    pub fn new(name: String, nodes: Vec<NodeId>) -> (r: Group)
        ensures
            r.name@ == name@,
            r.nodes == nodes,
    {
        Group { name, nodes }
    }

    pub fn name(&self) -> (r: &str)
        ensures
            r@ == self.name@,
    {
        self.name.as_str()
    }

    pub fn nodes(&self) -> (r: &Vec<NodeId>)
        ensures
            r == &self.nodes,
    {
        &self.nodes
    }
}

/// How often `v` occurs in a node list.
pub open spec fn count_in(nodes: Seq<NodeId>, v: int) -> int
    decreases nodes.len(),
{
    if nodes.len() == 0 {
        0
    } else {
        count_in(nodes.drop_last(), v) + if nodes.last().0 == v {
            1int
        } else {
            0int
        }
    }
}

/// How often `v` occurs across all groups.
pub open spec fn occurrences(groups: Seq<Group>, v: int) -> int
    decreases groups.len(),
{
    if groups.len() == 0 {
        0
    } else {
        occurrences(groups.drop_last(), v) + count_in(groups.last().nodes@, v)
    }
}

/// Total number of node-list entries over all groups.
pub open spec fn total_count(groups: Seq<Group>) -> int
    decreases groups.len(),
{
    if groups.len() == 0 {
        0
    } else {
        total_count(groups.drop_last()) + groups.last().nodes@.len()
    }
}

/// The groups partition the node ids `0..n`: every node id is listed in
/// exactly one group, once, and no listed id is out of range.
pub open spec fn is_partition(groups: Seq<Group>, n: int) -> bool {
    &&& forall|v: int| 0 <= v < n ==> occurrences(groups, v) == 1
    &&& forall|g: int, j: int|
        0 <= g < groups.len() && 0 <= j < groups[g].nodes@.len() ==> (#[trigger] groups[g].nodes@[j]).0 < n
}

/// The group that node `v` is assigned to by a sequential scan in which a
/// later listing overwrites an earlier one: the last group listing `v`, or
/// group `0` when none does.
pub open spec fn rev_index(groups: Seq<Group>, v: int) -> int
    decreases groups.len(),
{
    if groups.len() == 0 {
        0
    } else if count_in(groups.last().nodes@, v) >= 1 {
        groups.len() - 1
    } else {
        rev_index(groups.drop_last(), v)
    }
}

pub proof fn lemma_count_in_nonneg(nodes: Seq<NodeId>, v: int)
    ensures
        count_in(nodes, v) >= 0,
    decreases nodes.len(),
{
    if nodes.len() > 0 {
        lemma_count_in_nonneg(nodes.drop_last(), v);
    }
}

pub proof fn lemma_occurrences_nonneg(groups: Seq<Group>, v: int)
    ensures
        occurrences(groups, v) >= 0,
    decreases groups.len(),
{
    if groups.len() > 0 {
        lemma_occurrences_nonneg(groups.drop_last(), v);
        lemma_count_in_nonneg(groups.last().nodes@, v);
    }
}

/// A node id occurs in a list exactly when its count there is positive.
pub proof fn lemma_count_in_contains(nodes: Seq<NodeId>, v: int)
    requires
        0 <= v <= usize::MAX,
    ensures
        (count_in(nodes, v) >= 1) <==> nodes.contains(NodeId(v as usize)),
    decreases nodes.len(),
{
    lemma_count_in_nonneg(nodes, v);
    if nodes.len() > 0 {
        lemma_count_in_contains(nodes.drop_last(), v);
        lemma_count_in_nonneg(nodes.drop_last(), v);
        if nodes.last().0 == v {
            assert(nodes[nodes.len() - 1] == NodeId(v as usize));
            assert(nodes.contains(NodeId(v as usize)));
        } else {
            if nodes.drop_last().contains(NodeId(v as usize)) {
                let j = choose|j: int|
                    0 <= j < nodes.drop_last().len() && nodes.drop_last()[j] == NodeId(v as usize);
                assert(nodes[j] == NodeId(v as usize));
            }
            if nodes.contains(NodeId(v as usize)) {
                let j = choose|j: int| 0 <= j < nodes.len() && nodes[j] == NodeId(v as usize);
                assert(j < nodes.len() - 1);
                assert(nodes.drop_last()[j] == NodeId(v as usize));
            }
        }
    }
}

/// When `v` is listed exactly once over all groups, `rev_index` names the
/// group that lists it.
pub proof fn lemma_rev_index_of_partition(groups: Seq<Group>, v: int)
    requires
        0 <= v <= usize::MAX,
        occurrences(groups, v) == 1,
    ensures
        0 <= rev_index(groups, v) < groups.len(),
        groups[rev_index(groups, v)].nodes@.contains(NodeId(v as usize)),
        forall|g: int|
            0 <= g < groups.len() && g != rev_index(groups, v) ==> !(#[trigger] groups[g]).nodes@.contains(
                NodeId(v as usize),
            ),
    decreases groups.len(),
{
    lemma_count_in_nonneg(groups.last().nodes@, v);
    lemma_occurrences_nonneg(groups.drop_last(), v);
    let last = groups.last().nodes@;
    if count_in(last, v) >= 1 {
        lemma_count_in_contains(last, v);
        assert(rev_index(groups, v) == groups.len() - 1);
        assert(occurrences(groups.drop_last(), v) == 0);
        assert forall|g: int|
            0 <= g < groups.len() && g != groups.len() - 1 implies !(#[trigger] groups[g]).nodes@.contains(
            NodeId(v as usize),
        ) by {
            lemma_occurrences_prefix_bound(groups.drop_last(), v, g);
            lemma_count_in_contains(groups[g].nodes@, v);
            assert(groups.drop_last()[g] == groups[g]);
        }
    } else {
        lemma_count_in_contains(last, v);
        lemma_rev_index_of_partition(groups.drop_last(), v);
        let r = rev_index(groups, v);
        assert(r == rev_index(groups.drop_last(), v));
        assert(groups.drop_last()[r] == groups[r]);
        assert forall|g: int|
            0 <= g < groups.len() && g != r implies !(#[trigger] groups[g]).nodes@.contains(
            NodeId(v as usize),
        ) by {
            if g < groups.len() - 1 {
                assert(groups.drop_last()[g] == groups[g]);
            }
        }
    }
}

/// Each group's count of `v` is bounded by the total occurrence count.
pub proof fn lemma_occurrences_prefix_bound(groups: Seq<Group>, v: int, g: int)
    requires
        0 <= g < groups.len(),
    ensures
        count_in(groups[g].nodes@, v) <= occurrences(groups, v),
    decreases groups.len(),
{
    lemma_count_in_nonneg(groups.last().nodes@, v);
    if g == groups.len() - 1 {
        lemma_occurrences_nonneg(groups.drop_last(), v);
    } else {
        lemma_occurrences_prefix_bound(groups.drop_last(), v, g);
        assert(groups.drop_last()[g] == groups[g]);
    }
}

/// Partition of node ids into named groups, with a node-to-group reverse
/// index.
pub struct GroupSet {
    pub groups: Vec<Group>,
    pub node_to_group: Vec<usize>,
}

impl GroupSet {
    /// The reverse index has one entry per listed node and agrees with a
    /// sequential last-wins scan of the group lists.
    pub open spec fn wf(self) -> bool {
        &&& self.node_to_group@.len() == total_count(self.groups@)
        &&& forall|v: int|
            0 <= v < self.node_to_group@.len() ==> self.node_to_group@[v] == rev_index(
                self.groups@,
                v,
            )
    }

    pub fn new(groups: Vec<Group>) -> (r: GroupSet)
        requires
            total_count(groups@) <= usize::MAX,
            forall|g: int, j: int|
                0 <= g < groups@.len() && 0 <= j < groups@[g].nodes@.len() ==> (#[trigger] groups@[g].nodes@[j]).0
                    < total_count(groups@),
        ensures
            r.wf(),
            r.groups == groups,
    {
        let nodes_cnt = Self::count_nodes(&groups);
        let mut node_to_group: Vec<usize> = Vec::new();
        let mut i: usize = 0;
        while i < nodes_cnt
            invariant
                i <= nodes_cnt,
                node_to_group@.len() == i,
                forall|v: int| 0 <= v < i ==> node_to_group@[v] == 0,
            decreases nodes_cnt - i,
        {
            node_to_group.push(0);
            i = i + 1;
        }
        proof {
            lemma_rev_index_of_empty(groups@.take(0));
        }
        let mut g_id: usize = 0;
        while g_id < groups.len()
            invariant
                g_id <= groups@.len(),
                nodes_cnt == total_count(groups@),
                node_to_group@.len() == nodes_cnt,
                forall|g: int, j: int|
                    0 <= g < groups@.len() && 0 <= j < groups@[g].nodes@.len() ==> (
                    #[trigger] groups@[g].nodes@[j]).0 < total_count(groups@),
                forall|v: int|
                    0 <= v < nodes_cnt ==> node_to_group@[v] == rev_index(
                        groups@.take(g_id as int),
                        v,
                    ),
            decreases groups@.len() - g_id,
        {
            let group = &groups[g_id];
            let n_nodes = group.nodes.len();
            let mut j: usize = 0;
            while j < n_nodes
                invariant
                    g_id < groups@.len(),
                    j <= n_nodes,
                    n_nodes == groups@[g_id as int].nodes@.len(),
                    nodes_cnt == total_count(groups@),
                    node_to_group@.len() == nodes_cnt,
                    forall|g: int, jj: int|
                        0 <= g < groups@.len() && 0 <= jj < groups@[g].nodes@.len() ==> (
                        #[trigger] groups@[g].nodes@[jj]).0 < total_count(groups@),
                    forall|v: int|
                        0 <= v < nodes_cnt ==> node_to_group@[v] == (if count_in(
                            groups@[g_id as int].nodes@.take(j as int),
                            v,
                        ) >= 1 {
                            g_id as int
                        } else {
                            rev_index(groups@.take(g_id as int), v)
                        }),
                decreases n_nodes - j,
            {
                let ghost nodes_s = groups@[g_id as int].nodes@;
                let idx = groups[g_id].nodes[j].index();
                node_to_group.set(idx, g_id);
                j = j + 1;
                proof {
                    let jj = j as int;
                    assert(nodes_s.take(jj).drop_last() =~= nodes_s.take(jj - 1));
                    assert(nodes_s.take(jj).last() == nodes_s[jj - 1]);
                    assert(nodes_s[jj - 1].0 == idx);
                    assert forall|v: int| 0 <= v < nodes_cnt implies #[trigger] count_in(
                        nodes_s.take(jj),
                        v,
                    ) == count_in(nodes_s.take(jj - 1), v) + (if idx == v {
                        1int
                    } else {
                        0int
                    }) by {}
                    assert forall|v: int| 0 <= v < nodes_cnt implies #[trigger] count_in(
                        nodes_s.take(jj - 1),
                        v,
                    ) >= 0 by {
                        lemma_count_in_nonneg(nodes_s.take(jj - 1), v);
                    }
                }
            }
            proof {
                assert(groups@[g_id as int].nodes@.take(n_nodes as int) =~= groups@[g_id as int].nodes@);
                assert(groups@.take(g_id + 1).drop_last() =~= groups@.take(g_id as int));
                assert(groups@.take(g_id + 1).last() == groups@[g_id as int]);
            }
            g_id = g_id + 1;
        }
        proof {
            assert(groups@.take(groups@.len() as int) =~= groups@);
        }
        GroupSet { groups, node_to_group }
    }

    fn count_nodes(groups: &Vec<Group>) -> (r: usize)
        requires
            total_count(groups@) <= usize::MAX,
        ensures
            r == total_count(groups@),
    {
        let mut cnt: usize = 0;
        let mut g: usize = 0;
        while g < groups.len()
            invariant
                g <= groups@.len(),
                cnt == total_count(groups@.take(g as int)),
                total_count(groups@) <= usize::MAX,
            decreases groups@.len() - g,
        {
            proof {
                assert(groups@.take(g + 1).drop_last() =~= groups@.take(g as int));
                assert(groups@.take(g + 1).last() == groups@[g as int]);
                lemma_total_count_mono(groups@, g + 1);
            }
            cnt = cnt + groups[g].nodes.len();
            g = g + 1;
        }
        proof {
            assert(groups@.take(groups@.len() as int) =~= groups@);
        }
        cnt
    }

    pub fn groups(&self) -> (r: &Vec<Group>)
        ensures
            r == &self.groups,
    {
        &self.groups
    }

    pub fn group_by_node_id(&self, node_id: usize) -> (r: usize)
        requires
            node_id < self.node_to_group@.len(),
        ensures
            r == self.node_to_group@[node_id as int],
    {
        self.node_to_group[node_id]
    }
}

proof fn lemma_rev_index_of_empty(groups: Seq<Group>)
    requires
        groups.len() == 0,
    ensures
        forall|v: int| rev_index(groups, v) == 0,
{
}

/// A prefix never counts more entries than the whole.
pub proof fn lemma_total_count_mono(groups: Seq<Group>, k: int)
    requires
        0 <= k <= groups.len(),
    ensures
        total_count(groups.take(k)) <= total_count(groups),
    decreases groups.len(),
{
    if k < groups.len() {
        assert(groups.drop_last().take(k) =~= groups.take(k));
        lemma_total_count_mono(groups.drop_last(), k);
        lemma_total_count_nonneg_last(groups);
    } else {
        assert(groups.take(k) =~= groups);
    }
}

proof fn lemma_total_count_nonneg_last(groups: Seq<Group>)
    requires
        groups.len() > 0,
    ensures
        total_count(groups) >= total_count(groups.drop_last()),
{
}

/// A prefix of a node list never counts more occurrences than the whole.
pub proof fn lemma_count_in_take_le(nodes: Seq<NodeId>, j: int, v: int)
    requires
        0 <= j <= nodes.len(),
    ensures
        count_in(nodes.take(j), v) <= count_in(nodes, v),
    decreases nodes.len(),
{
    if j == nodes.len() {
        assert(nodes.take(j) =~= nodes);
    } else {
        assert(nodes.drop_last().take(j) =~= nodes.take(j));
        lemma_count_in_take_le(nodes.drop_last(), j, v);
    }
}

/// A prefix of the group list never counts more occurrences than the whole.
pub proof fn lemma_occurrences_take_le(groups: Seq<Group>, k: int, v: int)
    requires
        0 <= k <= groups.len(),
    ensures
        occurrences(groups.take(k), v) <= occurrences(groups, v),
    decreases groups.len(),
{
    if k == groups.len() {
        assert(groups.take(k) =~= groups);
    } else {
        assert(groups.drop_last().take(k) =~= groups.take(k));
        lemma_occurrences_take_le(groups.drop_last(), k, v);
        lemma_count_in_nonneg(groups.last().nodes@, v);
    }
}

/// The occurrences seen after scanning `g` whole groups and `j` entries of
/// group `g` never exceed the total occurrence count.
pub proof fn lemma_occurrences_split(groups: Seq<Group>, g: int, j: int, v: int)
    requires
        0 <= g < groups.len(),
        0 <= j <= groups[g].nodes@.len(),
    ensures
        occurrences(groups.take(g), v) + count_in(groups[g].nodes@.take(j), v) <= occurrences(
            groups,
            v,
        ),
{
    assert(groups.take(g + 1).drop_last() =~= groups.take(g));
    assert(groups.take(g + 1).last() == groups[g]);
    lemma_count_in_take_le(groups[g].nodes@, j, v);
    lemma_occurrences_take_le(groups, g + 1, v);
}

/// Decide whether the groups partition the node ids `0..n`.
pub fn validate_partition(groups: &Vec<Group>, n: usize) -> (r: bool)
    ensures
        r == is_partition(groups@, n as int),
{
    let mut seen: Vec<bool> = Vec::new();
    let mut i: usize = 0;
    while i < n
        invariant
            i <= n,
            seen@.len() == i,
            forall|v: int| 0 <= v < i ==> seen@[v] == false,
        decreases n - i,
    {
        seen.push(false);
        i = i + 1;
    }
    let mut g: usize = 0;
    while g < groups.len()
        invariant
            g <= groups@.len(),
            seen@.len() == n,
            forall|v: int|
                0 <= v < n ==> seen@[v] == (occurrences(groups@.take(g as int), v) >= 1),
            forall|v: int| 0 <= v < n ==> occurrences(groups@.take(g as int), v) <= 1,
            forall|gg: int, jj: int|
                0 <= gg < g && 0 <= jj < groups@[gg].nodes@.len() ==> (
                #[trigger] groups@[gg].nodes@[jj]).0 < n,
        decreases groups@.len() - g,
    {
        let ghost nodes_s = groups@[g as int].nodes@;
        let n_nodes = groups[g].nodes.len();
        let mut j: usize = 0;
        while j < n_nodes
            invariant
                g < groups@.len(),
                j <= n_nodes,
                n_nodes == groups@[g as int].nodes@.len(),
                nodes_s == groups@[g as int].nodes@,
                seen@.len() == n,
                forall|v: int|
                    0 <= v < n ==> seen@[v] == (occurrences(groups@.take(g as int), v) + count_in(
                        nodes_s.take(j as int),
                        v,
                    ) >= 1),
                forall|v: int|
                    0 <= v < n ==> occurrences(groups@.take(g as int), v) + count_in(
                        nodes_s.take(j as int),
                        v,
                    ) <= 1,
                forall|gg: int, jj: int|
                    0 <= gg < g && 0 <= jj < groups@[gg].nodes@.len() ==> (
                    #[trigger] groups@[gg].nodes@[jj]).0 < n,
                forall|jj: int| 0 <= jj < j ==> (#[trigger] nodes_s[jj]).0 < n,
            decreases n_nodes - j,
        {
            let idx = groups[g].nodes[j].index();
            if idx >= n {
                proof {
                    assert(groups@[g as int].nodes@[j as int].0 >= n);
                }
                return false;
            }
            if seen[idx] {
                proof {
                    lemma_occurrences_split(groups@, g as int, j + 1, idx as int);
                    assert(nodes_s.take(j + 1).drop_last() =~= nodes_s.take(j as int));
                    assert(nodes_s.take(j + 1).last() == nodes_s[j as int]);
                    assert(occurrences(groups@, idx as int) >= 2);
                }
                return false;
            }
            seen.set(idx, true);
            j = j + 1;
            proof {
                let jj = j as int;
                assert(nodes_s.take(jj).drop_last() =~= nodes_s.take(jj - 1));
                assert(nodes_s.take(jj).last() == nodes_s[jj - 1]);
                assert forall|v: int| 0 <= v < n implies #[trigger] count_in(nodes_s.take(jj), v)
                    == count_in(nodes_s.take(jj - 1), v) + (if idx == v {
                    1int
                } else {
                    0int
                }) by {}
                assert forall|v: int| 0 <= v < n implies occurrences(groups@.take(g as int), v)
                    >= 0 && #[trigger] count_in(nodes_s.take(jj - 1), v) >= 0 by {
                    lemma_occurrences_nonneg(groups@.take(g as int), v);
                    lemma_count_in_nonneg(nodes_s.take(jj - 1), v);
                }
            }
        }
        g = g + 1;
        proof {
            let gg = g as int;
            assert(nodes_s.take(n_nodes as int) =~= nodes_s);
            assert(groups@.take(gg).drop_last() =~= groups@.take(gg - 1));
            assert(groups@.take(gg).last() == groups@[gg - 1]);
            assert forall|v: int| 0 <= v < n implies #[trigger] occurrences(groups@.take(gg), v)
                == occurrences(groups@.take(gg - 1), v) + count_in(nodes_s, v) by {}
        }
    }
    proof {
        assert(groups@.take(groups@.len() as int) =~= groups@);
    }
    let mut v: usize = 0;
    while v < n
        invariant
            v <= n,
            seen@.len() == n,
            forall|w: int| 0 <= w < n ==> seen@[w] == (occurrences(groups@, w) >= 1),
            forall|w: int| 0 <= w < n ==> occurrences(groups@, w) <= 1,
            forall|w: int| 0 <= w < v ==> occurrences(groups@, w) == 1,
            forall|gg: int, jj: int|
                0 <= gg < groups@.len() && 0 <= jj < groups@[gg].nodes@.len() ==> (
                #[trigger] groups@[gg].nodes@[jj]).0 < n,
        decreases n - v,
    {
        if !seen[v] {
            proof {
                lemma_occurrences_nonneg(groups@, v as int);
            }
            return false;
        }
        v = v + 1;
    }
    true
}

/// Direction of change of a per-group average between two snapshots.
#[derive(Clone, Copy, Debug, PartialEq, Eq, Structural)]
pub enum GroupTrend {
    Up,
    Down,
    Flat,
}

/// Coarse classification of a group's current average health.
#[derive(Clone, Copy, Debug, PartialEq, Eq, Structural)]
pub enum GroupHealth {
    Healthy,
    Degraded,
    Critical,
    Failed,
}

impl GroupHealth {
    /// A short human-readable label.
    pub fn label(&self) -> (r: &'static str)
        ensures
            r@ == match *self {
                GroupHealth::Healthy => "Ok"@,
                GroupHealth::Degraded => "Degraded"@,
                GroupHealth::Critical => "Critical"@,
                GroupHealth::Failed => "Failed"@,
            },
    {
        match self {
            GroupHealth::Healthy => "Ok",
            GroupHealth::Degraded => "Degraded",
            GroupHealth::Critical => "Critical",
            GroupHealth::Failed => "Failed",
        }
    }
}

/// The per-group digest of one turn, as shown to the operator.
pub struct GroupSummary {
    pub name: String,
    pub avg_utilization: u64,
    pub utilization_trend: GroupTrend,
    pub node_count: usize,
    pub raw_health: u64,
    pub health: GroupHealth,
    pub health_trend: GroupTrend,
    pub healthy_nodes: usize,
    pub pressure: Vec<u64>,
}

impl GroupSummary {
    pub fn new(
        name: String,
        avg_utilization: u64,
        utilization_trend: GroupTrend,
        node_count: usize,
        raw_health: u64,
        health: GroupHealth,
        health_trend: GroupTrend,
        healthy_nodes: usize,
        pressure: Vec<u64>,
    ) -> (r: GroupSummary)
        ensures
            r.name@ == name@,
            r.avg_utilization == avg_utilization,
            r.utilization_trend == utilization_trend,
            r.node_count == node_count,
            r.raw_health == raw_health,
            r.health == health,
            r.health_trend == health_trend,
            r.healthy_nodes == healthy_nodes,
            r.pressure == pressure,
    {
        GroupSummary {
            name,
            avg_utilization,
            utilization_trend,
            node_count,
            raw_health,
            health,
            health_trend,
            healthy_nodes,
            pressure,
        }
    }

    pub fn name(&self) -> (r: &str)
        ensures
            r@ == self.name@,
    {
        self.name.as_str()
    }

    pub fn avg_utilization(&self) -> (r: u64)
        ensures
            r == self.avg_utilization,
    {
        self.avg_utilization
    }

    pub fn utilization_trend(&self) -> (r: &GroupTrend)
        ensures
            *r == self.utilization_trend,
    {
        &self.utilization_trend
    }

    pub fn node_count(&self) -> (r: usize)
        ensures
            r == self.node_count,
    {
        self.node_count
    }

    pub fn raw_health(&self) -> (r: u64)
        ensures
            r == self.raw_health,
    {
        self.raw_health
    }

    pub fn health(&self) -> (r: &GroupHealth)
        ensures
            *r == self.health,
    {
        &self.health
    }

    pub fn health_trend(&self) -> (r: &GroupTrend)
        ensures
            *r == self.health_trend,
    {
        &self.health_trend
    }

    pub fn healthy_nodes(&self) -> (r: usize)
        ensures
            r == self.healthy_nodes,
    {
        self.healthy_nodes
    }

    pub fn pressure(&self) -> (r: &Vec<u64>)
        ensures
            r == &self.pressure,
    {
        &self.pressure
    }
}

} // verus!
