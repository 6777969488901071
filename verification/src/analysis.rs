use vstd::prelude::*;

use crate::arith::{ratio_scaled, sat_add, sat_ratio, sat_scale_mul, scale_mul, wadd};
use crate::graph::{adjacency_in, lemma_adjacency_in_props, Edge, EdgeId, Graph, Node, NodeId};
use crate::groups::{Group, GroupHealth, GroupSet, GroupSummary, GroupTrend};
use crate::snapshot::{spec_edge_load, Snapshot};
use crate::state::{EdgeState, NodeState};

verus! {

/// Half-width of the band within which an average counts as flat.
pub const EPSILON: u64 = 20;

/// Average health strictly above this classifies a group as `Healthy`.
pub const OK_THRESHOLD: u64 = 800;

/// Average health strictly above this (and not above `OK_THRESHOLD`)
/// classifies a group as `Degraded`.
pub const DEGRADED_THRESHOLD: u64 = 300;

/// Served work summed (saturating) over the healthy nodes among the first
/// `k` of a group's node list.
pub open spec fn sum_served(ns: Seq<NodeState>, gnodes: Seq<NodeId>, k: int) -> int
    decreases k,
{
    if k <= 0 {
        0
    } else {
        let b = sum_served(ns, gnodes, k - 1);
        if ns[gnodes[k - 1].0 as int].healthy() {
            wadd(b, ns[gnodes[k - 1].0 as int].served as int)
        } else {
            b
        }
    }
}

/// Effective capacity summed (saturating) over the healthy nodes among the
/// first `k` of a group's node list.
pub open spec fn sum_eff_cap(
    nodes: Seq<Node>,
    ns: Seq<NodeState>,
    gnodes: Seq<NodeId>,
    factor: u64,
    k: int,
) -> int
    decreases k,
{
    if k <= 0 {
        0
    } else {
        let b = sum_eff_cap(nodes, ns, gnodes, factor, k - 1);
        if ns[gnodes[k - 1].0 as int].healthy() {
            wadd(b, scale_mul(nodes[gnodes[k - 1].0 as int].capacity as int, factor as int))
        } else {
            b
        }
    }
}

/// A group's average utilisation: served work over effective capacity
/// across its healthy nodes, as a fixed-point ratio; zero when the healthy
/// capacity is zero.
pub open spec fn spec_calc_util(
    nodes: Seq<Node>,
    ns: Seq<NodeState>,
    gnodes: Seq<NodeId>,
    factor: u64,
) -> int {
    ratio_scaled(
        sum_served(ns, gnodes, gnodes.len() as int),
        sum_eff_cap(nodes, ns, gnodes, factor, gnodes.len() as int),
    )
}

/// Health summed (saturating) over the first `k` of a group's node list.
pub open spec fn sum_health(ns: Seq<NodeState>, gnodes: Seq<NodeId>, k: int) -> int
    decreases k,
{
    if k <= 0 {
        0
    } else {
        wadd(sum_health(ns, gnodes, k - 1), ns[gnodes[k - 1].0 as int].health as int)
    }
}

/// A group's average health: the arithmetic mean over all its nodes, zero
/// for an empty group.
pub open spec fn spec_calc_health(ns: Seq<NodeState>, gnodes: Seq<NodeId>) -> int {
    if gnodes.len() == 0 {
        0
    } else {
        sum_health(ns, gnodes, gnodes.len() as int) / (gnodes.len() as int)
    }
}

/// Healthy nodes among the first `k` of a group's node list.
pub open spec fn count_healthy(ns: Seq<NodeState>, gnodes: Seq<NodeId>, k: int) -> int
    decreases k,
{
    if k <= 0 {
        0
    } else {
        count_healthy(ns, gnodes, k - 1) + if ns[gnodes[k - 1].0 as int].healthy() {
            1int
        } else {
            0int
        }
    }
}

/// Up when the average rose by more than `EPSILON`, down when it fell by
/// more than `EPSILON`, flat otherwise.
pub open spec fn spec_trend(curr: int, prev: int) -> GroupTrend {
    if curr - prev > EPSILON {
        GroupTrend::Up
    } else if curr - prev < -(EPSILON as int) {
        GroupTrend::Down
    } else {
        GroupTrend::Flat
    }
}

/// Health classification; the thresholds are half-open downwards.
pub open spec fn spec_health_class(h: int) -> GroupHealth {
    if h > OK_THRESHOLD {
        GroupHealth::Healthy
    } else if h > DEGRADED_THRESHOLD {
        GroupHealth::Degraded
    } else if h > 0 {
        GroupHealth::Critical
    } else {
        GroupHealth::Failed
    }
}

/// `base` plus the loads of the first `j` incoming edges of one node whose
/// source belongs to group `src`.
pub open spec fn spec_pressure_edges(
    nodes: Seq<Node>,
    edges: Seq<Edge>,
    ns: Seq<NodeState>,
    en: Seq<EdgeState>,
    ntg: Seq<usize>,
    inc: Seq<EdgeId>,
    src: int,
    j: int,
    base: int,
) -> int
    decreases j,
{
    if j <= 0 {
        base
    } else {
        let b = spec_pressure_edges(nodes, edges, ns, en, ntg, inc, src, j - 1, base);
        let eid = inc[j - 1].0 as int;
        if ntg[edges[eid].from.0 as int] == src {
            wadd(b, spec_edge_load(nodes, edges, ns, en, eid))
        } else {
            b
        }
    }
}

/// Flow into the first `k` nodes of a group, decomposed by the source
/// group `src` of each incoming edge.
pub open spec fn spec_pressure_nodes(
    nodes: Seq<Node>,
    edges: Seq<Edge>,
    ns: Seq<NodeState>,
    en: Seq<EdgeState>,
    ntg: Seq<usize>,
    gnodes: Seq<NodeId>,
    src: int,
    k: int,
) -> int
    decreases k,
{
    if k <= 0 {
        0
    } else {
        let b = spec_pressure_nodes(nodes, edges, ns, en, ntg, gnodes, src, k - 1);
        spec_pressure_edges(
            nodes,
            edges,
            ns,
            en,
            ntg,
            adjacency_in(edges, gnodes[k - 1].0 as int),
            src,
            adjacency_in(edges, gnodes[k - 1].0 as int).len() as int,
            b,
        )
    }
}

/// All of one group's node ids name nodes of the graph.
pub open spec fn group_nodes_ok(gnodes: Seq<NodeId>, n: int) -> bool {
    forall|j: int| 0 <= j < gnodes.len() ==> (#[trigger] gnodes[j]).0 < n
}

fn calc_util(snapshot: &Snapshot, group: &Group, graph: &Graph, group_id: usize) -> (r: u64)
    requires
        snapshot.matches(*graph),
        group_id < snapshot.capacity_mods@.len(),
        group_nodes_ok(group.nodes@, graph.nodes@.len() as int),
    ensures
        r == spec_calc_util(
            graph.nodes@,
            snapshot.node_states@,
            group.nodes@,
            snapshot.capacity_mods@[group_id as int].factor_spec(),
        ),
{
    let factor = snapshot.capacity_mod(group_id).factor();
    let mut agg_served: u64 = 0;
    let mut agg_capacity: u64 = 0;
    let mut k: usize = 0;
    while k < group.nodes.len()
        invariant
            snapshot.matches(*graph),
            group_nodes_ok(group.nodes@, graph.nodes@.len() as int),
            factor == snapshot.capacity_mods@[group_id as int].factor_spec(),
            k <= group.nodes@.len(),
            agg_served == sum_served(snapshot.node_states@, group.nodes@, k as int),
            agg_capacity == sum_eff_cap(
                graph.nodes@,
                snapshot.node_states@,
                group.nodes@,
                factor,
                k as int,
            ),
        decreases group.nodes@.len() - k,
    {
        let id = group.nodes[k];
        if snapshot.node_states[id.0].is_healthy() {
            agg_served = sat_add(agg_served, snapshot.node_states[id.0].served);
            agg_capacity = sat_add(agg_capacity, sat_scale_mul(graph.nodes[id.0].capacity, factor));
        }
        k = k + 1;
    }
    sat_ratio(agg_served, agg_capacity)
}

fn calc_health(snapshot: &Snapshot, group: &Group, graph: &Graph) -> (r: u64)
    requires
        snapshot.matches(*graph),
        group_nodes_ok(group.nodes@, graph.nodes@.len() as int),
    ensures
        r == spec_calc_health(snapshot.node_states@, group.nodes@),
{
    let count = group.nodes.len();
    if count == 0 {
        return 0;
    }
    let mut sum: u64 = 0;
    let mut k: usize = 0;
    while k < count
        invariant
            snapshot.matches(*graph),
            group_nodes_ok(group.nodes@, graph.nodes@.len() as int),
            count == group.nodes@.len(),
            k <= count,
            sum == sum_health(snapshot.node_states@, group.nodes@, k as int),
        decreases count - k,
    {
        let id = group.nodes[k];
        sum = sat_add(sum, snapshot.node_states[id.0].health);
        k = k + 1;
    }
    sum / (count as u64)
}

fn trend_of(curr: u64, prev: u64) -> (r: GroupTrend)
    ensures
        r == spec_trend(curr as int, prev as int),
{
    if curr > prev && curr - prev > EPSILON {
        GroupTrend::Up
    } else if prev > curr && prev - curr > EPSILON {
        GroupTrend::Down
    } else {
        GroupTrend::Flat
    }
}

fn health_class_of(h: u64) -> (r: GroupHealth)
    ensures
        r == spec_health_class(h as int),
{
    if h > OK_THRESHOLD {
        GroupHealth::Healthy
    } else if h > DEGRADED_THRESHOLD {
        GroupHealth::Degraded
    } else if h > 0 {
        GroupHealth::Critical
    } else {
        GroupHealth::Failed
    }
}

fn calc_pressure(
    group_set: &GroupSet,
    current_snapshot: &Snapshot,
    graph: &Graph,
    group: &Group,
) -> (r: Vec<u64>)
    requires
        graph.wf(),
        current_snapshot.matches(*graph),
        group_set.node_to_group@.len() == graph.nodes@.len(),
        forall|v: int|
            0 <= v < graph.nodes@.len() ==> (#[trigger] group_set.node_to_group@[v])
                < group_set.groups@.len(),
        group_nodes_ok(group.nodes@, graph.nodes@.len() as int),
    ensures
        r@.len() == group_set.groups@.len(),
        forall|src: int|
            0 <= src < r@.len() ==> r@[src] == spec_pressure_nodes(
                graph.nodes@,
                graph.edges@,
                current_snapshot.node_states@,
                current_snapshot.edge_states@,
                group_set.node_to_group@,
                group.nodes@,
                src,
                group.nodes@.len() as int,
            ),
{
    let ghost nodes_s = graph.nodes@;
    let ghost edges_s = graph.edges@;
    let ghost ns_s = current_snapshot.node_states@;
    let ghost en_s = current_snapshot.edge_states@;
    let ghost ntg_s = group_set.node_to_group@;
    let n_groups = group_set.groups.len();
    let mut pressure: Vec<u64> = Vec::new();
    let mut i: usize = 0;
    while i < n_groups
        invariant
            i <= n_groups,
            pressure@.len() == i,
            forall|w: int| 0 <= w < i ==> pressure@[w] == 0,
        decreases n_groups - i,
    {
        pressure.push(0);
        i = i + 1;
    }
    let mut k: usize = 0;
    while k < group.nodes.len()
        invariant
            graph.wf(),
            current_snapshot.matches(*graph),
            nodes_s == graph.nodes@,
            edges_s == graph.edges@,
            ns_s == current_snapshot.node_states@,
            en_s == current_snapshot.edge_states@,
            ntg_s == group_set.node_to_group@,
            ntg_s.len() == nodes_s.len(),
            forall|v: int| 0 <= v < nodes_s.len() ==> (#[trigger] ntg_s[v]) < n_groups,
            group_nodes_ok(group.nodes@, nodes_s.len() as int),
            n_groups == group_set.groups@.len(),
            k <= group.nodes@.len(),
            pressure@.len() == n_groups,
            forall|src: int|
                0 <= src < n_groups ==> pressure@[src] == spec_pressure_nodes(
                    nodes_s,
                    edges_s,
                    ns_s,
                    en_s,
                    ntg_s,
                    group.nodes@,
                    src,
                    k as int,
                ),
        decreases group.nodes@.len() - k,
    {
        let node_id = group.nodes[k];
        let inc = graph.incoming(node_id);
        let ghost inc_s = inc@;
        proof {
            lemma_adjacency_in_props(edges_s, node_id.0 as int);
        }
        let mut j: usize = 0;
        while j < inc.len()
            invariant
                graph.wf(),
                current_snapshot.matches(*graph),
                nodes_s == graph.nodes@,
                edges_s == graph.edges@,
                ns_s == current_snapshot.node_states@,
                en_s == current_snapshot.edge_states@,
                ntg_s == group_set.node_to_group@,
                ntg_s.len() == nodes_s.len(),
                forall|v: int| 0 <= v < nodes_s.len() ==> (#[trigger] ntg_s[v]) < n_groups,
                inc_s == inc@,
                forall|p: int|
                    0 <= p < inc_s.len() ==> (#[trigger] inc_s[p]).0 < edges_s.len()
                        && edges_s[inc_s[p].0 as int].from.0 < nodes_s.len(),
                j <= inc_s.len(),
                pressure@.len() == n_groups,
                forall|src: int|
                    0 <= src < n_groups ==> pressure@[src] == spec_pressure_edges(
                        nodes_s,
                        edges_s,
                        ns_s,
                        en_s,
                        ntg_s,
                        inc_s,
                        src,
                        j as int,
                        spec_pressure_nodes(
                            nodes_s,
                            edges_s,
                            ns_s,
                            en_s,
                            ntg_s,
                            group.nodes@,
                            src,
                            k as int,
                        ),
                    ),
            decreases inc_s.len() - j,
        {
            let eid = inc[j];
            let load = current_snapshot.edge_load(eid, graph);
            let from = graph.edges[eid.0].from.index();
            let src = group_set.group_by_node_id(from);
            let cur = pressure[src];
            pressure.set(src, sat_add(cur, load));
            j = j + 1;
        }
        k = k + 1;
        proof {
            assert forall|src: int| 0 <= src < n_groups implies #[trigger] spec_pressure_nodes(
                nodes_s,
                edges_s,
                ns_s,
                en_s,
                ntg_s,
                group.nodes@,
                src,
                k as int,
            ) == spec_pressure_edges(
                nodes_s,
                edges_s,
                ns_s,
                en_s,
                ntg_s,
                inc_s,
                src,
                inc_s.len() as int,
                spec_pressure_nodes(
                    nodes_s,
                    edges_s,
                    ns_s,
                    en_s,
                    ntg_s,
                    group.nodes@,
                    src,
                    k - 1,
                ),
            ) by {
                assert(inc_s == adjacency_in(edges_s, group.nodes@[k - 1].0 as int));
            }
        }
    }
    pressure
}

/// One summary per group, in group order: average utilisation over healthy
/// nodes with its trend, average health with its classification and trend,
/// the healthy-node count, and the inbound pressure decomposed by source
/// group — all computed from the current snapshot, with trends against the
/// previous one.
pub fn aggregate_groups(
    group_set: &GroupSet,
    current_snapshot: &Snapshot,
    previous_snapshot: &Snapshot,
    graph: &Graph,
) -> (r: Vec<GroupSummary>)
    requires
        graph.wf(),
        current_snapshot.matches(*graph),
        previous_snapshot.matches(*graph),
        group_set.groups@.len() <= current_snapshot.capacity_mods@.len(),
        group_set.groups@.len() <= previous_snapshot.capacity_mods@.len(),
        group_set.node_to_group@.len() == graph.nodes@.len(),
        forall|v: int|
            0 <= v < graph.nodes@.len() ==> (#[trigger] group_set.node_to_group@[v])
                < group_set.groups@.len(),
        forall|g: int|
            0 <= g < group_set.groups@.len() ==> group_nodes_ok(
                (#[trigger] group_set.groups@[g]).nodes@,
                graph.nodes@.len() as int,
            ),
    ensures
        r@.len() == group_set.groups@.len(),
        forall|g: int|
            0 <= g < r@.len() ==> {
                let gnodes = (#[trigger] group_set.groups@[g]).nodes@;
                let curr_util = spec_calc_util(
                    graph.nodes@,
                    current_snapshot.node_states@,
                    gnodes,
                    current_snapshot.capacity_mods@[g].factor_spec(),
                );
                let prev_util = spec_calc_util(
                    graph.nodes@,
                    previous_snapshot.node_states@,
                    gnodes,
                    previous_snapshot.capacity_mods@[g].factor_spec(),
                );
                let curr_health = spec_calc_health(current_snapshot.node_states@, gnodes);
                let prev_health = spec_calc_health(previous_snapshot.node_states@, gnodes);
                &&& r@[g].name@ == group_set.groups@[g].name@
                &&& r@[g].avg_utilization == curr_util
                &&& r@[g].utilization_trend == spec_trend(curr_util, prev_util)
                &&& r@[g].node_count == gnodes.len()
                &&& r@[g].raw_health == curr_health
                &&& r@[g].health == spec_health_class(curr_health)
                &&& r@[g].health_trend == spec_trend(curr_health, prev_health)
                &&& r@[g].healthy_nodes == count_healthy(
                    current_snapshot.node_states@,
                    gnodes,
                    gnodes.len() as int,
                )
                &&& r@[g].pressure@.len() == group_set.groups@.len()
                &&& forall|src: int|
                    0 <= src < group_set.groups@.len() ==> r@[g].pressure@[src]
                        == spec_pressure_nodes(
                        graph.nodes@,
                        graph.edges@,
                        current_snapshot.node_states@,
                        current_snapshot.edge_states@,
                        group_set.node_to_group@,
                        gnodes,
                        src,
                        gnodes.len() as int,
                    )
            },
{
    let n_groups = group_set.groups.len();
    let mut summaries: Vec<GroupSummary> = Vec::new();
    let mut g: usize = 0;
    while g < n_groups
        invariant
            graph.wf(),
            current_snapshot.matches(*graph),
            previous_snapshot.matches(*graph),
            n_groups == group_set.groups@.len(),
            n_groups <= current_snapshot.capacity_mods@.len(),
            n_groups <= previous_snapshot.capacity_mods@.len(),
            group_set.node_to_group@.len() == graph.nodes@.len(),
            forall|v: int|
                0 <= v < graph.nodes@.len() ==> (#[trigger] group_set.node_to_group@[v])
                    < group_set.groups@.len(),
            forall|gg: int|
                0 <= gg < n_groups ==> group_nodes_ok(
                    (#[trigger] group_set.groups@[gg]).nodes@,
                    graph.nodes@.len() as int,
                ),
            g <= n_groups,
            summaries@.len() == g,
            forall|gg: int|
                0 <= gg < g ==> {
                    let gnodes = (#[trigger] group_set.groups@[gg]).nodes@;
                    let curr_util = spec_calc_util(
                        graph.nodes@,
                        current_snapshot.node_states@,
                        gnodes,
                        current_snapshot.capacity_mods@[gg].factor_spec(),
                    );
                    let prev_util = spec_calc_util(
                        graph.nodes@,
                        previous_snapshot.node_states@,
                        gnodes,
                        previous_snapshot.capacity_mods@[gg].factor_spec(),
                    );
                    let curr_health = spec_calc_health(current_snapshot.node_states@, gnodes);
                    let prev_health = spec_calc_health(previous_snapshot.node_states@, gnodes);
                    &&& summaries@[gg].name@ == group_set.groups@[gg].name@
                    &&& summaries@[gg].avg_utilization == curr_util
                    &&& summaries@[gg].utilization_trend == spec_trend(curr_util, prev_util)
                    &&& summaries@[gg].node_count == gnodes.len()
                    &&& summaries@[gg].raw_health == curr_health
                    &&& summaries@[gg].health == spec_health_class(curr_health)
                    &&& summaries@[gg].health_trend == spec_trend(curr_health, prev_health)
                    &&& summaries@[gg].healthy_nodes == count_healthy(
                        current_snapshot.node_states@,
                        gnodes,
                        gnodes.len() as int,
                    )
                    &&& summaries@[gg].pressure@.len() == group_set.groups@.len()
                    &&& forall|src: int|
                        0 <= src < group_set.groups@.len() ==> summaries@[gg].pressure@[src]
                            == spec_pressure_nodes(
                            graph.nodes@,
                            graph.edges@,
                            current_snapshot.node_states@,
                            current_snapshot.edge_states@,
                            group_set.node_to_group@,
                            gnodes,
                            src,
                            gnodes.len() as int,
                        )
                },
        decreases n_groups - g,
    {
        let group = &group_set.groups[g];
        let prev_avg_util = calc_util(previous_snapshot, group, graph, g);
        let curr_avg_util = calc_util(current_snapshot, group, graph, g);
        let util_trend = trend_of(curr_avg_util, prev_avg_util);

        let prev_health = calc_health(previous_snapshot, group, graph);
        let curr_health = calc_health(current_snapshot, group, graph);
        let health_trend = trend_of(curr_health, prev_health);

        let health = health_class_of(curr_health);

        let mut healthy_nodes: usize = 0;
        let mut k: usize = 0;
        while k < group.nodes.len()
            invariant
                current_snapshot.matches(*graph),
                group_nodes_ok(group.nodes@, graph.nodes@.len() as int),
                k <= group.nodes@.len(),
                healthy_nodes <= k,
                healthy_nodes == count_healthy(current_snapshot.node_states@, group.nodes@, k as int),
            decreases group.nodes@.len() - k,
        {
            let id = group.nodes[k];
            if current_snapshot.node_states[id.0].is_healthy() {
                healthy_nodes = healthy_nodes + 1;
            }
            k = k + 1;
        }

        let pressure = calc_pressure(group_set, current_snapshot, graph, group);

        let name = group.name.clone();
        summaries.push(
            GroupSummary::new(
                name,
                curr_avg_util,
                util_trend,
                group.nodes.len(),
                curr_health,
                health,
                health_trend,
                healthy_nodes,
                pressure,
            ),
        );
        g = g + 1;
    }
    summaries
}

} // verus!
