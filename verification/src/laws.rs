use vstd::prelude::*;

use crate::arith::{lemma_mul_div_mono, ratio_scaled, scale_mul, wadd, SCALE};
use crate::analysis::{count_healthy, spec_calc_health, spec_calc_util, sum_eff_cap, sum_served};
use crate::engine::{
    spec_demand, spec_entry_added, spec_has_enabled_out, spec_inflow, spec_next_node_state,
    DAMAGE_FACTOR,
};
use crate::graph::{adjacency_out, edges_dense, lemma_adjacency_out_props, Edge, EdgeId, Node, NodeId};
use crate::modifiers::CapacityModifier;
use crate::scenario::Scenario;
use crate::snapshot::{
    lemma_cum_weight_mono, lemma_cum_weight_nonneg, cum_weight, spec_edge_load, total_out_weight,
};
use crate::state::{EdgeState, NodeState};

verus! {

/// An edge never carries negative flow.
pub proof fn lemma_edge_load_nonneg(
    nodes: Seq<Node>,
    edges: Seq<Edge>,
    ns: Seq<NodeState>,
    en: Seq<EdgeState>,
    e: int,
)
    requires
        0 <= e < edges.len(),
        0 <= edges[e].from.0 < ns.len(),
        ns.len() == nodes.len(),
    ensures
        0 <= spec_edge_load(nodes, edges, ns, en, e),
{
    let u = edges[e].from.0 as int;
    if ns[u].healthy() && en[e].enabled && ns[u].served != 0 {
        let tw = total_out_weight(edges, en, u);
        if tw != 0 {
            let t = scale_mul(ns[u].served as int, nodes[u].gain as int);
            assert(0 <= t) by {
                crate::arith::lemma_u64_prod_fits(ns[u].served as int, nodes[u].gain as int);
                assert(0 <= (ns[u].served as int * nodes[u].gain as int) / (SCALE as int))
                    by (nonlinear_arith)
                    requires
                        0 <= ns[u].served as int * nodes[u].gain as int,
                ;
            }
            lemma_cum_weight_nonneg(edges, en, u, e);
            lemma_cum_weight_mono(edges, en, u, e, e + 1);
            lemma_cum_weight_nonneg(edges, en, u, edges.len() as int);
            lemma_mul_div_mono(t, cum_weight(edges, en, u, e), cum_weight(edges, en, u, e + 1), tw);
        }
    }
}

/// The propagated inflow of a node is a representable work quantity.
pub proof fn lemma_inflow_in_range(
    nodes: Seq<Node>,
    edges: Seq<Edge>,
    ns: Seq<NodeState>,
    en: Seq<EdgeState>,
    v: int,
    k: int,
)
    requires
        0 <= k <= edges.len(),
        ns.len() == nodes.len(),
        forall|e: int| 0 <= e < edges.len() ==> (#[trigger] edges[e]).from.0 < ns.len(),
    ensures
        0 <= spec_inflow(nodes, edges, ns, en, v, k) <= u64::MAX,
    decreases k,
{
    if k > 0 {
        lemma_inflow_in_range(nodes, edges, ns, en, v, k - 1);
        lemma_edge_load_nonneg(nodes, edges, ns, en, k - 1);
    }
}

/// The total demand of a node is a representable work quantity.
pub proof fn lemma_demand_in_range<S: Scenario>(
    nodes: Seq<Node>,
    edges: Seq<Edge>,
    ns: Seq<NodeState>,
    en: Seq<EdgeState>,
    sc: S,
    turn: int,
    v: int,
)
    requires
        ns.len() == nodes.len(),
        forall|e: int| 0 <= e < edges.len() ==> (#[trigger] edges[e]).from.0 < ns.len(),
    ensures
        0 <= spec_demand(nodes, edges, ns, en, sc, turn, v) <= u64::MAX,
{
    lemma_inflow_in_range(nodes, edges, ns, en, v, edges.len() as int);
    lemma_entry_added_in_range(
        sc,
        sc.entry_spec(),
        v,
        turn,
        spec_inflow(nodes, edges, ns, en, v, edges.len() as int),
    );
}

proof fn lemma_entry_added_in_range<S: Scenario>(
    sc: S,
    entries: Seq<NodeId>,
    v: int,
    turn: int,
    base: int,
)
    requires
        0 <= base <= u64::MAX,
    ensures
        0 <= spec_entry_added(sc, entries, v, turn, base) <= u64::MAX,
    decreases entries.len(),
{
    if entries.len() > 0 {
        lemma_entry_added_in_range(sc, entries.drop_last(), v, turn, base);
    }
}

/// After a step, every node's state is within bounds: nothing negative is
/// stored, a node never serves more than its effective capacity
/// (`capacity * modifier_factor` of its group), and health stays in
/// `0..=SCALE`.
pub proof fn law_state_bounds<S: Scenario>(
    nodes: Seq<Node>,
    edges: Seq<Edge>,
    ntg: Seq<usize>,
    mods: Seq<CapacityModifier>,
    ns: Seq<NodeState>,
    en: Seq<EdgeState>,
    sc: S,
    turn: int,
    v: int,
)
    requires
        0 <= v < ns.len(),
        ns.len() == nodes.len(),
        ns[v].wf(),
        forall|e: int| 0 <= e < edges.len() ==> (#[trigger] edges[e]).from.0 < ns.len(),
    ensures
        ({
            let next = spec_next_node_state(nodes, edges, ntg, mods, ns, en, sc, turn, v);
            let eff = scale_mul(
                nodes[v].capacity as int,
                mods[ntg[v] as int].factor_spec() as int,
            );
            &&& next.served <= eff
            &&& next.backlog >= 0
            &&& next.health <= SCALE
        }),
{
    lemma_demand_in_range(nodes, edges, ns, en, sc, turn, v);
    let d = spec_demand(nodes, edges, ns, en, sc, turn, v);
    let prev = ns[v];
    let eff = scale_mul(nodes[v].capacity as int, mods[ntg[v] as int].factor_spec() as int);
    assert(0 <= eff) by {
        crate::arith::lemma_u64_prod_fits(
            nodes[v].capacity as int,
            mods[ntg[v] as int].factor_spec() as int,
        );
        assert(0 <= (nodes[v].capacity as int * mods[ntg[v] as int].factor_spec() as int) / (
        SCALE as int)) by (nonlinear_arith)
            requires
                0 <= nodes[v].capacity as int * mods[ntg[v] as int].factor_spec() as int,
        ;
    }
    if prev.healthy() {
        let total = wadd(d, prev.backlog as int);
        if eff > 0 && total > eff {
            assert(((total - eff) * DAMAGE_FACTOR) / eff >= 0) by (nonlinear_arith)
                requires
                    total > eff,
                    eff > 0,
                    DAMAGE_FACTOR >= 0,
            ;
        }
    }
}

/// For a healthy node with an enabled outgoing edge and positive effective
/// capacity, work is conserved: what it serves plus what it keeps as
/// backlog equals its inbound demand plus the backlog carried over
/// (provided the sum is representable).
pub proof fn law_work_conservation<S: Scenario>(
    nodes: Seq<Node>,
    edges: Seq<Edge>,
    ntg: Seq<usize>,
    mods: Seq<CapacityModifier>,
    ns: Seq<NodeState>,
    en: Seq<EdgeState>,
    sc: S,
    turn: int,
    v: int,
)
    requires
        0 <= v < ns.len(),
        ns.len() == nodes.len(),
        forall|e: int| 0 <= e < edges.len() ==> (#[trigger] edges[e]).from.0 < ns.len(),
        ns[v].healthy(),
        spec_has_enabled_out(edges, en, v),
        scale_mul(nodes[v].capacity as int, mods[ntg[v] as int].factor_spec() as int) > 0,
        spec_demand(nodes, edges, ns, en, sc, turn, v) + ns[v].backlog <= u64::MAX,
    ensures
        ({
            let next = spec_next_node_state(nodes, edges, ntg, mods, ns, en, sc, turn, v);
            next.served + next.backlog == next.demand + ns[v].backlog
        }),
{
    lemma_demand_in_range(nodes, edges, ns, en, sc, turn, v);
}

/// An unhealthy node is a terminal sink: it serves nothing and keeps no
/// backlog.
pub proof fn law_unhealthy_sink<S: Scenario>(
    nodes: Seq<Node>,
    edges: Seq<Edge>,
    ntg: Seq<usize>,
    mods: Seq<CapacityModifier>,
    ns: Seq<NodeState>,
    en: Seq<EdgeState>,
    sc: S,
    turn: int,
    v: int,
)
    requires
        0 <= v < ns.len(),
        !ns[v].healthy(),
    ensures
        spec_next_node_state(nodes, edges, ntg, mods, ns, en, sc, turn, v).served == 0,
        spec_next_node_state(nodes, edges, ntg, mods, ns, en, sc, turn, v).backlog == 0,
{
}

/// A healthy node whose outgoing edges exist but are all disabled cannot
/// drain: its whole inbound demand plus carried backlog accumulates
/// (provided the sum is representable).
pub proof fn law_no_drain_accumulates<S: Scenario>(
    nodes: Seq<Node>,
    edges: Seq<Edge>,
    ntg: Seq<usize>,
    mods: Seq<CapacityModifier>,
    ns: Seq<NodeState>,
    en: Seq<EdgeState>,
    sc: S,
    turn: int,
    v: int,
)
    requires
        0 <= v < ns.len(),
        ns.len() == nodes.len(),
        forall|e: int| 0 <= e < edges.len() ==> (#[trigger] edges[e]).from.0 < ns.len(),
        ns[v].healthy(),
        adjacency_out(edges, v).len() > 0,
        !spec_has_enabled_out(edges, en, v),
        spec_demand(nodes, edges, ns, en, sc, turn, v) + ns[v].backlog <= u64::MAX,
    ensures
        ({
            let next = spec_next_node_state(nodes, edges, ntg, mods, ns, en, sc, turn, v);
            next.backlog == next.demand + ns[v].backlog
        }),
{
    lemma_demand_in_range(nodes, edges, ns, en, sc, turn, v);
}

/// With every outgoing edge of `u` disabled, no flow leaves `u` at all.
pub proof fn law_disabled_edges_carry_nothing(
    nodes: Seq<Node>,
    edges: Seq<Edge>,
    ns: Seq<NodeState>,
    en: Seq<EdgeState>,
    u: int,
)
    requires
        edges_dense(edges),
        !spec_has_enabled_out(edges, en, u),
    ensures
        forall|e: int|
            0 <= e < edges.len() && (#[trigger] edges[e]).from.0 == u ==> spec_edge_load(
                nodes,
                edges,
                ns,
                en,
                e,
            ) == 0,
{
    lemma_adjacency_out_props(edges, u);
    let adj = adjacency_out(edges, u);
    assert forall|e: int|
        0 <= e < edges.len() && (#[trigger] edges[e]).from.0 == u implies spec_edge_load(
        nodes,
        edges,
        ns,
        en,
        e,
    ) == 0 by {
        if en[e].enabled {
            assert(adj.contains(EdgeId(e as usize)));
            let j = choose|j: int| 0 <= j < adj.len() && adj[j] == EdgeId(e as usize);
            assert(en[adj[j].0 as int].enabled);
            assert(spec_has_enabled_out(edges, en, u));
        }
    }
}

/// Determinism: the next state of every node is a function of the graph,
/// the grouping, the modifiers, the node and edge states, the turn and the
/// scenario's behaviour alone. Two engines built from equal inputs and
/// given the same operator actions therefore agree snapshot by snapshot.
pub proof fn law_step_deterministic<S1: Scenario, S2: Scenario>(
    nodes: Seq<Node>,
    edges: Seq<Edge>,
    ntg: Seq<usize>,
    mods: Seq<CapacityModifier>,
    ns: Seq<NodeState>,
    en: Seq<EdgeState>,
    sc1: S1,
    sc2: S2,
    turn: int,
    v: int,
)
    requires
        sc1.entry_spec() == sc2.entry_spec(),
        forall|id: NodeId, t: int| #[trigger] sc1.load_spec(id, t) == sc2.load_spec(id, t),
    ensures
        spec_next_node_state(nodes, edges, ntg, mods, ns, en, sc1, turn, v)
            == spec_next_node_state(nodes, edges, ntg, mods, ns, en, sc2, turn, v),
{
    lemma_entry_added_congruent(
        sc1,
        sc2,
        sc1.entry_spec(),
        v,
        turn,
        spec_inflow(nodes, edges, ns, en, v, edges.len() as int),
    );
}

proof fn lemma_entry_added_congruent<S1: Scenario, S2: Scenario>(
    sc1: S1,
    sc2: S2,
    entries: Seq<NodeId>,
    v: int,
    turn: int,
    base: int,
)
    requires
        forall|id: NodeId, t: int| #[trigger] sc1.load_spec(id, t) == sc2.load_spec(id, t),
    ensures
        spec_entry_added(sc1, entries, v, turn, base) == spec_entry_added(
            sc2,
            entries,
            v,
            turn,
            base,
        ),
    decreases entries.len(),
{
    if entries.len() > 0 {
        lemma_entry_added_congruent(sc1, sc2, entries.drop_last(), v, turn, base);
    }
}

/// An empty group aggregates to zero utilisation, zero average health and
/// zero healthy nodes.
pub proof fn law_empty_group(
    nodes: Seq<Node>,
    ns: Seq<NodeState>,
    gnodes: Seq<NodeId>,
    factor: u64,
)
    requires
        gnodes.len() == 0,
    ensures
        spec_calc_util(nodes, ns, gnodes, factor) == 0,
        spec_calc_health(ns, gnodes) == 0,
        count_healthy(ns, gnodes, gnodes.len() as int) == 0,
{
    assert(sum_served(ns, gnodes, 0) == 0);
    assert(sum_eff_cap(nodes, ns, gnodes, factor, 0) == 0);
    assert(ratio_scaled(0, 0) == 0);
}

} // verus!
