use vstd::prelude::*;

use crate::arith::{mul_div, scale_mul, wadd, sat_add, sat_scale_mul, part_of, SCALE};
use crate::arith::lemma_mul_div_mono;
use crate::graph::{adjacency_out, edges_dense, lemma_adjacency_out_props, Edge, EdgeId, Graph, Node};
use crate::modifiers::{lemma_ticked_preserves_wf, CapacityModifier};
use crate::state::{EdgeState, NodeState};

verus! {

/// Weight of the enabled edges leaving `u` among the first `k` edges.
/// Partial sums saturate like the executable accumulation does.
pub open spec fn cum_weight(edges: Seq<Edge>, en: Seq<EdgeState>, u: int, k: int) -> int
    decreases k,
{
    if k <= 0 {
        0
    } else {
        let c = cum_weight(edges, en, u, k - 1);
        if edges[k - 1].from.0 == u && en[k - 1].enabled {
            wadd(c, edges[k - 1].weight as int)
        } else {
            c
        }
    }
}

/// Total enabled outgoing weight of `u`: the flow-splitting denominator `W`.
pub open spec fn total_out_weight(edges: Seq<Edge>, en: Seq<EdgeState>, u: int) -> int {
    cum_weight(edges, en, u, edges.len() as int)
}

/// The flow carried by edge `e`: zero if the producer is unhealthy, the edge
/// is disabled, nothing was served, or no enabled outgoing weight exists;
/// otherwise the producer's forwarded work `served * gain`, apportioned by
/// cumulative enabled weight so that the shares of the enabled outgoing
/// edges sum exactly to the forwarded work.
pub open spec fn spec_edge_load(
    nodes: Seq<Node>,
    edges: Seq<Edge>,
    ns: Seq<NodeState>,
    en: Seq<EdgeState>,
    e: int,
) -> int {
    let u = edges[e].from.0 as int;
    if !ns[u].healthy() || !en[e].enabled || ns[u].served == 0 {
        0
    } else {
        let tw = total_out_weight(edges, en, u);
        if tw == 0 {
            0
        } else {
            let t = scale_mul(ns[u].served as int, nodes[u].gain as int);
            mul_div(t, cum_weight(edges, en, u, e + 1), tw) - mul_div(
                t,
                cum_weight(edges, en, u, e),
                tw,
            )
        }
    }
}

pub proof fn lemma_cum_weight_nonneg(edges: Seq<Edge>, en: Seq<EdgeState>, u: int, k: int)
    ensures
        0 <= cum_weight(edges, en, u, k) <= u64::MAX,
    decreases k,
{
    if k > 0 {
        lemma_cum_weight_nonneg(edges, en, u, k - 1);
    }
}

pub proof fn lemma_cum_weight_mono(edges: Seq<Edge>, en: Seq<EdgeState>, u: int, k1: int, k2: int)
    requires
        k1 <= k2,
    ensures
        cum_weight(edges, en, u, k1) <= cum_weight(edges, en, u, k2),
    decreases k2 - k1,
{
    if k1 < k2 {
        lemma_cum_weight_mono(edges, en, u, k1, k2 - 1);
        lemma_cum_weight_nonneg(edges, en, u, k2 - 1);
    }
}

/// Over a stretch of edges none of which leaves `u`, the cumulative weight
/// does not change.
pub proof fn lemma_cum_weight_constant(
    edges: Seq<Edge>,
    en: Seq<EdgeState>,
    u: int,
    lo: int,
    hi: int,
)
    requires
        0 <= lo <= hi,
        forall|m: int| lo <= m < hi ==> (#[trigger] edges[m]).from.0 != u,
    ensures
        cum_weight(edges, en, u, hi) == cum_weight(edges, en, u, lo),
    decreases hi - lo,
{
    if lo < hi {
        lemma_cum_weight_constant(edges, en, u, lo, hi - 1);
    }
}

/// If no outgoing adjacency entry of `u` lies in `[lo, hi)`, then no edge in
/// that index range leaves `u`, so the cumulative weight is constant there.
pub proof fn lemma_cum_weight_skip(edges: Seq<Edge>, en: Seq<EdgeState>, u: int, lo: int, hi: int)
    requires
        edges_dense(edges),
        0 <= lo <= hi <= edges.len(),
        forall|p: int|
            0 <= p < adjacency_out(edges, u).len() ==> !(lo <= (#[trigger] adjacency_out(
                edges,
                u,
            )[p]).0 < hi),
    ensures
        cum_weight(edges, en, u, hi) == cum_weight(edges, en, u, lo),
{
    lemma_adjacency_out_props(edges, u);
    let adj = adjacency_out(edges, u);
    assert forall|m: int| lo <= m < hi implies (#[trigger] edges[m]).from.0 != u by {
        if edges[m].from.0 == u {
            assert(adj.contains(EdgeId(m as usize)));
            let p = choose|p: int| 0 <= p < adj.len() && adj[p] == EdgeId(m as usize);
            assert(adj[p].0 == m);
            assert(false);
        }
    }
    lemma_cum_weight_constant(edges, en, u, lo, hi);
}

/// A versioned bundle of the mutable simulation state: one entry per node,
/// per edge and per group.
pub struct Snapshot {
    pub turn: usize,
    pub node_states: Vec<NodeState>,
    pub edge_states: Vec<EdgeState>,
    pub capacity_mods: Vec<CapacityModifier>,
}

impl Snapshot {
    /// The state vectors fit the given topology.
    pub open spec fn matches(self, g: Graph) -> bool {
        &&& self.node_states@.len() == g.nodes@.len()
        &&& self.edge_states@.len() == g.edges@.len()
    }

    /// Node healths are in range and the capacity modifiers are well formed.
    pub open spec fn wf(self) -> bool {
        &&& forall|i: int| 0 <= i < self.node_states@.len() ==> (#[trigger] self.node_states@[i]).wf()
        &&& forall|i: int|
            0 <= i < self.capacity_mods@.len() ==> (#[trigger] self.capacity_mods@[i]).wf()
    }

    pub fn new(
        turn: usize,
        node_states: Vec<NodeState>,
        edge_states: Vec<EdgeState>,
        capacity_mods: Vec<CapacityModifier>,
    ) -> (r: Snapshot)
        ensures
            r.turn == turn,
            r.node_states == node_states,
            r.edge_states == edge_states,
            r.capacity_mods == capacity_mods,
    {
        Snapshot { turn, node_states, edge_states, capacity_mods }
    }

    /// Advance every capacity modifier one tick.
    pub fn tick(&mut self)
        ensures
            final(self).turn == old(self).turn,
            final(self).node_states == old(self).node_states,
            final(self).edge_states == old(self).edge_states,
            final(self).capacity_mods@.len() == old(self).capacity_mods@.len(),
            forall|i: int|
                0 <= i < old(self).capacity_mods@.len() ==> final(self).capacity_mods@[i] == (
                #[trigger] old(self).capacity_mods@[i]).ticked(),
            old(self).wf() ==> final(self).wf(),
    {
        let n = self.capacity_mods.len();
        let mut i: usize = 0;
        while i < n
            invariant
                i <= n,
                n == self.capacity_mods@.len(),
                n == old(self).capacity_mods@.len(),
                self.turn == old(self).turn,
                self.node_states == old(self).node_states,
                self.edge_states == old(self).edge_states,
                forall|k: int|
                    0 <= k < i ==> self.capacity_mods@[k] == (
                    #[trigger] old(self).capacity_mods@[k]).ticked(),
                forall|k: int|
                    i <= k < n ==> self.capacity_mods@[k] == #[trigger] old(
                        self,
                    ).capacity_mods@[k],
            decreases n - i,
        {
            let mut m = self.capacity_mods[i];
            m.tick();
            self.capacity_mods.set(i, m);
            i = i + 1;
        }
        proof {
            if old(self).wf() {
                assert forall|k: int|
                    0 <= k < self.capacity_mods@.len() implies (
                #[trigger] self.capacity_mods@[k]).wf() by {
                    lemma_ticked_preserves_wf(old(self).capacity_mods@[k]);
                }
            }
        }
    }

    pub fn turn(&self) -> (r: usize)
        ensures
            r == self.turn,
    {
        self.turn
    }

    pub fn node_states(&self) -> (r: &Vec<NodeState>)
        ensures
            r == &self.node_states,
    {
        &self.node_states
    }

    pub fn edge_states(&self) -> (r: &Vec<EdgeState>)
        ensures
            r == &self.edge_states,
    {
        &self.edge_states
    }

    pub fn capacity_mods(&self) -> (r: &Vec<CapacityModifier>)
        ensures
            r == &self.capacity_mods,
    {
        &self.capacity_mods
    }

    pub fn capacity_mod(&self, group_id: usize) -> (r: &CapacityModifier)
        requires
            group_id < self.capacity_mods@.len(),
        ensures
            *r == self.capacity_mods@[group_id as int],
    {
        &self.capacity_mods[group_id]
    }

    /// Apply a capacity factor to a group's modifier; refused (returning
    /// `false` and changing nothing) while the modifier is already active.
    pub fn update_capacity(&mut self, group_id: usize, factor: u64) -> (ok: bool)
        requires
            group_id < old(self).capacity_mods@.len(),
        ensures
            ok == !old(self).capacity_mods@[group_id as int].active,
            final(self).capacity_mods@ == old(self).capacity_mods@.update(
                group_id as int,
                if old(self).capacity_mods@[group_id as int].active {
                    old(self).capacity_mods@[group_id as int]
                } else {
                    old(self).capacity_mods@[group_id as int].applied(factor)
                },
            ),
            final(self).turn == old(self).turn,
            final(self).node_states == old(self).node_states,
            final(self).edge_states == old(self).edge_states,
            old(self).wf() ==> final(self).wf(),
    {
        let mut m = self.capacity_mods[group_id];
        let ok = m.apply(factor);
        self.capacity_mods.set(group_id, m);
        proof {
            if ok == false {
                assert(self.capacity_mods@ =~= old(self).capacity_mods@.update(
                    group_id as int,
                    old(self).capacity_mods@[group_id as int],
                ));
            }
        }
        ok
    }

    /// The flow on one edge, per the flow-splitting rule: a healthy producer
    /// forwards `served * gain`, split across its enabled outgoing edges in
    /// proportion to their weight (by cumulative-weight apportionment).
    pub fn edge_load(&self, edge_id: EdgeId, graph: &Graph) -> (r: u64)
        requires
            graph.wf(),
            self.matches(*graph),
            edge_id.0 < graph.edges@.len(),
        ensures
            r == spec_edge_load(
                graph.nodes@,
                graph.edges@,
                self.node_states@,
                self.edge_states@,
                edge_id.0 as int,
            ),
    {
        let ghost edges_s = graph.edges@;
        let ghost en_s = self.edge_states@;
        let edge = graph.edge_by_id(edge_id);
        let from = edge.from;
        let f_id = from.index();
        let ghost u = f_id as int;
        let ghost e = edge_id.0 as int;

        if !self.node_states[f_id].is_healthy() || !self.edge_states[edge_id.0].is_enabled()
            || self.node_states[f_id].served() == 0 {
            return 0;
        }

        let adj = graph.outgoing(from);
        let ghost adj_s = adj@;
        proof {
            lemma_adjacency_out_props(edges_s, u);
        }

        let mut c: u64 = 0;
        let mut c_before: u64 = 0;
        let mut c_after: u64 = 0;
        let mut found: bool = false;
        let ghost mut bound: int = 0;
        let mut j: usize = 0;
        while j < adj.len()
            invariant
                graph.wf(),
                self.matches(*graph),
                edges_s == graph.edges@,
                en_s == self.edge_states@,
                0 <= u < graph.nodes@.len(),
                0 <= e < edges_s.len(),
                edges_s[e].from.0 == u,
                en_s[e].enabled,
                adj_s == adj@,
                adj_s == adjacency_out(edges_s, u),
                e == edge_id.0,
                j <= adj_s.len(),
                0 <= bound <= edges_s.len(),
                bound == if j == 0 {
                    0int
                } else {
                    adj_s[j - 1].0 + 1
                },
                c == cum_weight(edges_s, en_s, u, bound),
                !found ==> forall|p: int| 0 <= p < j ==> (#[trigger] adj_s[p]).0 != e,
                found ==> c_before == cum_weight(edges_s, en_s, u, e) && c_after == cum_weight(
                    edges_s,
                    en_s,
                    u,
                    e + 1,
                ),
            decreases adj_s.len() - j,
        {
            proof {
                lemma_adjacency_out_props(edges_s, u);
                assert forall|p: int|
                    0 <= p < adj_s.len() implies !(bound <= (#[trigger] adj_s[p]).0
                    < adj_s[j as int].0) by {
                    if p < j {
                        if j > 0 && p < j - 1 {
                            assert(adj_s[p].0 < adj_s[j - 1].0);
                        }
                    } else {
                        if p > j {
                            assert(adj_s[j as int].0 < adj_s[p].0);
                        }
                    }
                }
                lemma_cum_weight_skip(edges_s, en_s, u, bound, adj_s[j as int].0 as int);
            }
            let cur = adj[j];
            // cum is flat from `bound` up to this adjacency entry.
            assert(c == cum_weight(edges_s, en_s, u, cur.0 as int));
            let hit = cur.0 == edge_id.0;
            if hit {
                c_before = c;
            }
            if self.edge_states[cur.0].is_enabled() {
                let w = graph.edge_by_id(cur).weight;
                c = sat_add(c, w);
            }
            assert(c == cum_weight(edges_s, en_s, u, cur.0 + 1));
            if hit {
                c_after = c;
                found = true;
            }
            proof {
                bound = adj_s[j as int].0 + 1;
                if hit {
                    assert(adj_s[j as int].0 == e);
                }
            }
            j = j + 1;
        }

        proof {
            lemma_adjacency_out_props(edges_s, u);
            assert forall|p: int|
                0 <= p < adj_s.len() implies !(bound <= (#[trigger] adj_s[p]).0
                < edges_s.len()) by {
                if j > 0 && p < j - 1 {
                    assert(adj_s[p].0 < adj_s[j - 1].0);
                }
            }
            lemma_cum_weight_skip(edges_s, en_s, u, bound, edges_s.len() as int);
            // the edge itself leaves `u`, so the scan must have seen it
            assert(adj_s.contains(EdgeId(e as usize)));
            let p = choose|p: int| 0 <= p < adj_s.len() && adj_s[p] == EdgeId(e as usize);
            assert(adj_s[p].0 == e);
            if !found {
                assert(adj_s[p].0 != e);
            }
            assert(found);
        }

        let total_weight = c;
        if total_weight == 0 {
            return 0;
        }

        let node = graph.node_by_id(from);
        let served = self.node_states[f_id].served();
        let t = sat_scale_mul(served, node.gain);
        proof {
            lemma_cum_weight_mono(edges_s, en_s, u, e + 1, edges_s.len() as int);
            lemma_cum_weight_mono(edges_s, en_s, u, e, e + 1);
            lemma_cum_weight_nonneg(edges_s, en_s, u, e);
            lemma_mul_div_mono(
                t as int,
                cum_weight(edges_s, en_s, u, e),
                cum_weight(edges_s, en_s, u, e + 1),
                total_weight as int,
            );
        }
        let share_after = part_of(t, c_after, total_weight);
        let share_before = part_of(t, c_before, total_weight);
        share_after - share_before
    }
}

/// Total flow leaving `u` across the first `k` edges of the graph.
pub open spec fn out_load_sum(
    nodes: Seq<Node>,
    edges: Seq<Edge>,
    ns: Seq<NodeState>,
    en: Seq<EdgeState>,
    u: int,
    k: int,
) -> int
    decreases k,
{
    if k <= 0 {
        0
    } else {
        out_load_sum(nodes, edges, ns, en, u, k - 1) + if edges[k - 1].from.0 == u {
            spec_edge_load(nodes, edges, ns, en, k - 1)
        } else {
            0
        }
    }
}

proof fn lemma_out_load_sum_zero_served(
    nodes: Seq<Node>,
    edges: Seq<Edge>,
    ns: Seq<NodeState>,
    en: Seq<EdgeState>,
    u: int,
    k: int,
)
    requires
        0 <= k <= edges.len(),
        0 <= u < ns.len(),
        ns[u].served == 0,
    ensures
        out_load_sum(nodes, edges, ns, en, u, k) == 0,
    decreases k,
{
    if k > 0 {
        lemma_out_load_sum_zero_served(nodes, edges, ns, en, u, k - 1);
    }
}

proof fn lemma_out_load_sum_partial(
    nodes: Seq<Node>,
    edges: Seq<Edge>,
    ns: Seq<NodeState>,
    en: Seq<EdgeState>,
    u: int,
    k: int,
)
    requires
        ns.len() == nodes.len(),
        en.len() == edges.len(),
        0 <= u < nodes.len(),
        0 <= k <= edges.len(),
        ns[u].healthy(),
        ns[u].served != 0,
        total_out_weight(edges, en, u) > 0,
    ensures
        out_load_sum(nodes, edges, ns, en, u, k) == mul_div(
            scale_mul(ns[u].served as int, nodes[u].gain as int),
            cum_weight(edges, en, u, k),
            total_out_weight(edges, en, u),
        ),
    decreases k,
{
    let tw = total_out_weight(edges, en, u);
    let t = scale_mul(ns[u].served as int, nodes[u].gain as int);
    assert(0 <= t) by {
        crate::arith::lemma_u64_prod_fits(ns[u].served as int, nodes[u].gain as int);
        assert(0 <= (ns[u].served as int * nodes[u].gain as int) / (SCALE as int))
            by (nonlinear_arith)
            requires
                0 <= ns[u].served as int * nodes[u].gain as int,
        ;
    }
    if k == 0 {
        assert(mul_div(t, 0, tw) == 0);
    } else {
        lemma_out_load_sum_partial(nodes, edges, ns, en, u, k - 1);
        let e = k - 1;
        if edges[e].from.0 == u {
            if en[e].enabled {
                assert(spec_edge_load(nodes, edges, ns, en, e) == mul_div(
                    t,
                    cum_weight(edges, en, u, k),
                    tw,
                ) - mul_div(t, cum_weight(edges, en, u, e), tw));
            } else {
                assert(spec_edge_load(nodes, edges, ns, en, e) == 0);
                assert(cum_weight(edges, en, u, k) == cum_weight(edges, en, u, e));
            }
        } else {
            assert(cum_weight(edges, en, u, k) == cum_weight(edges, en, u, e));
        }
    }
}

/// Flow conservation: all the work a healthy producer forwards leaves it.
/// When `u` has positive enabled outgoing weight, the edge loads over its
/// outgoing edges (the disabled ones carrying zero) sum to exactly
/// `served * gain` in fixed point.
pub proof fn lemma_flow_conservation(
    nodes: Seq<Node>,
    edges: Seq<Edge>,
    ns: Seq<NodeState>,
    en: Seq<EdgeState>,
    u: int,
)
    requires
        ns.len() == nodes.len(),
        en.len() == edges.len(),
        0 <= u < nodes.len(),
        ns[u].healthy(),
        total_out_weight(edges, en, u) > 0,
    ensures
        out_load_sum(nodes, edges, ns, en, u, edges.len() as int) == scale_mul(
            ns[u].served as int,
            nodes[u].gain as int,
        ),
{
    let tw = total_out_weight(edges, en, u);
    let t = scale_mul(ns[u].served as int, nodes[u].gain as int);
    if ns[u].served == 0 {
        lemma_out_load_sum_zero_served(nodes, edges, ns, en, u, edges.len() as int);
        assert(0 * (nodes[u].gain as int) == 0);
        assert(t == 0);
    } else {
        lemma_out_load_sum_partial(nodes, edges, ns, en, u, edges.len() as int);
        assert(0 <= t) by {
            crate::arith::lemma_u64_prod_fits(ns[u].served as int, nodes[u].gain as int);
            assert(0 <= (ns[u].served as int * nodes[u].gain as int) / (SCALE as int))
                by (nonlinear_arith)
                requires
                    0 <= ns[u].served as int * nodes[u].gain as int,
            ;
        }
        crate::arith::lemma_mul_div_whole(t, tw);
    }
}

} // verus!
