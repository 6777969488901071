use vstd::prelude::*;

use crate::arith::{sat_add, sat_scale_mul, scale_mul, wadd, SCALE};
use crate::graph::{adjacency_out, lemma_adjacency_out_props, Edge, EdgeId, Graph, Node, NodeId};
use crate::groups::{is_partition, lemma_rev_index_of_partition, validate_partition, GroupSet};
use crate::modifiers::CapacityModifier;
use crate::scenario::Scenario;
use crate::snapshot::{spec_edge_load, Snapshot};
use crate::state::{EdgeState, NodeState};

verus! {

/// Factor installed by a throttle action (one half).
pub const THROTTLE_FACTOR: u64 = 500;

/// Factor installed by a boost action (three halves).
pub const BOOST_FACTOR: u64 = 1500;

/// Health lost per turn, per unit of overload pressure beyond capacity
/// (one tenth of full health).
pub const DAMAGE_FACTOR: u64 = 100;

/// Health regained on a turn with pressure below one and no backlog
/// (one hundredth of full health).
pub const RECOVERY_STEP: u64 = 10;

/// Why `SimulationEngine::new` refused its inputs.
#[derive(Clone, Copy, Debug, PartialEq, Eq, Structural)]
pub enum ConstructionError {
    /// A state vector's length does not match the topology.
    LengthMismatch,
    /// The groups do not partition the graph's node ids.
    NotPartition,
    /// A node health lies outside `0..=SCALE`.
    HealthOutOfRange,
    /// A capacity modifier breaks its lifecycle invariant.
    InvalidModifier,
    /// The scenario names an entry node the graph does not have.
    InvalidEntryNode,
}

/// The state vectors fit the topology and the reverse index is total.
pub open spec fn lengths_ok(graph: Graph, groups: GroupSet, snap: Snapshot) -> bool {
    &&& snap.matches(graph)
    &&& snap.capacity_mods@.len() == groups.groups@.len()
    &&& groups.node_to_group@.len() == graph.nodes@.len()
}

/// Every scenario entry node is a node of the graph.
pub open spec fn entries_ok<S: Scenario>(scenario: S, n: int) -> bool {
    forall|i: int|
        0 <= i < scenario.entry_spec().len() ==> (#[trigger] scenario.entry_spec()[i]).0 < n
}

/// The first construction fault found, in checking order, or `None` when
/// the inputs are valid.
pub open spec fn construction_error<S: Scenario>(
    graph: Graph,
    groups: GroupSet,
    snap: Snapshot,
    scenario: S,
) -> Option<ConstructionError> {
    if !lengths_ok(graph, groups, snap) {
        Some(ConstructionError::LengthMismatch)
    } else if !is_partition(groups.groups@, graph.nodes@.len() as int) {
        Some(ConstructionError::NotPartition)
    } else if !(forall|i: int|
        0 <= i < snap.node_states@.len() ==> (#[trigger] snap.node_states@[i]).wf()) {
        Some(ConstructionError::HealthOutOfRange)
    } else if !(forall|i: int|
        0 <= i < snap.capacity_mods@.len() ==> (#[trigger] snap.capacity_mods@[i]).wf()) {
        Some(ConstructionError::InvalidModifier)
    } else if !entries_ok(scenario, graph.nodes@.len() as int) {
        Some(ConstructionError::InvalidEntryNode)
    } else {
        None
    }
}

/// The turn-based simulation: topology, grouping, the current and previous
/// state snapshots, the load scenario, and the operator's per-turn budget.
pub struct SimulationEngine<S: Scenario> {
    pub graph: Graph,
    pub groups: GroupSet,
    pub previous_snapshot: Option<Snapshot>,
    pub current_snapshot: Snapshot,
    pub scenario: S,
    pub remaining_ops: u8,
}

impl<S: Scenario> SimulationEngine<S> {
    /// Everything `new` validates, kept by every step and operator action.
    pub open spec fn wf(self) -> bool {
        &&& self.graph.wf()
        &&& self.groups.wf()
        &&& self.groups.node_to_group@.len() == self.graph.nodes@.len()
        &&& is_partition(self.groups.groups@, self.graph.nodes@.len() as int)
        &&& self.current_snapshot.matches(self.graph)
        &&& self.current_snapshot.wf()
        &&& self.current_snapshot.capacity_mods@.len() == self.groups.groups@.len()
        &&& match self.previous_snapshot {
            Some(p) => p.matches(self.graph) && p.wf() && p.capacity_mods@.len()
                == self.groups.groups@.len(),
            None => true,
        }
        &&& entries_ok(self.scenario, self.graph.nodes@.len() as int)
    }

    /// Validates the inputs as the construction contract demands and builds
    /// the engine; the initial snapshot is both current and (implicitly)
    /// previous until the first step.
    pub fn new(graph: Graph, groups: GroupSet, initial_snapshot: Snapshot, scenario: S) -> (r:
        Result<SimulationEngine<S>, ConstructionError>)
        requires
            graph.wf(),
            groups.wf(),
        ensures
            match r {
                Ok(e) => {
                    &&& construction_error(graph, groups, initial_snapshot, scenario) is None
                    &&& e.graph == graph
                    &&& e.groups == groups
                    &&& e.current_snapshot == initial_snapshot
                    &&& e.previous_snapshot is None
                    &&& e.scenario == scenario
                    &&& e.remaining_ops == scenario.ops_spec()
                    &&& e.wf()
                },
                Err(err) => construction_error(graph, groups, initial_snapshot, scenario) == Some(
                    err,
                ),
            },
    {
        let n = graph.node_count();
        if !(initial_snapshot.node_states.len() == n && initial_snapshot.edge_states.len()
            == graph.edges.len() && initial_snapshot.capacity_mods.len() == groups.groups.len()
            && groups.node_to_group.len() == n) {
            return Err(ConstructionError::LengthMismatch);
        }
        if !validate_partition(&groups.groups, n) {
            return Err(ConstructionError::NotPartition);
        }
        if !Self::healths_in_range(&initial_snapshot.node_states) {
            return Err(ConstructionError::HealthOutOfRange);
        }
        if !Self::modifiers_well_formed(&initial_snapshot.capacity_mods) {
            return Err(ConstructionError::InvalidModifier);
        }
        if !Self::entries_in_range(&scenario, n) {
            return Err(ConstructionError::InvalidEntryNode);
        }
        let remaining_ops = scenario.ops_per_turn();
        Ok(
            SimulationEngine {
                graph,
                groups,
                previous_snapshot: None,
                current_snapshot: initial_snapshot,
                scenario,
                remaining_ops,
            },
        )
    }

    fn healths_in_range(states: &Vec<NodeState>) -> (r: bool)
        ensures
            r == forall|i: int| 0 <= i < states@.len() ==> (#[trigger] states@[i]).wf(),
    {
        let mut i: usize = 0;
        while i < states.len()
            invariant
                i <= states@.len(),
                forall|k: int| 0 <= k < i ==> (#[trigger] states@[k]).wf(),
            decreases states@.len() - i,
        {
            if states[i].health > SCALE {
                return false;
            }
            i = i + 1;
        }
        true
    }

    fn modifiers_well_formed(mods: &Vec<CapacityModifier>) -> (r: bool)
        ensures
            r == forall|i: int| 0 <= i < mods@.len() ==> (#[trigger] mods@[i]).wf(),
    {
        let mut i: usize = 0;
        while i < mods.len()
            invariant
                i <= mods@.len(),
                forall|k: int| 0 <= k < i ==> (#[trigger] mods@[k]).wf(),
            decreases mods@.len() - i,
        {
            if !mods[i].is_wf() {
                return false;
            }
            i = i + 1;
        }
        true
    }

    fn entries_in_range(scenario: &S, n: usize) -> (r: bool)
        ensures
            r == entries_ok(*scenario, n as int),
    {
        let entries = scenario.entry_nodes();
        let mut i: usize = 0;
        while i < entries.len()
            invariant
                entries@ == scenario.entry_spec(),
                i <= entries@.len(),
                forall|k: int| 0 <= k < i ==> (#[trigger] entries@[k]).0 < n,
            decreases entries@.len() - i,
        {
            if entries[i].0 >= n {
                return false;
            }
            i = i + 1;
        }
        true
    }

    pub fn graph(&self) -> (r: &Graph)
        ensures
            r == &self.graph,
    {
        &self.graph
    }

    pub fn groups(&self) -> (r: &GroupSet)
        ensures
            r == &self.groups,
    {
        &self.groups
    }

    pub fn scenario(&self) -> (r: &S)
        ensures
            r == &self.scenario,
    {
        &self.scenario
    }

    /// The group that owns a node.
    pub fn group_of(&self, node: NodeId) -> (r: usize)
        requires
            self.wf(),
            node.0 < self.graph.nodes@.len(),
        ensures
            r == self.groups.node_to_group@[node.0 as int],
            r < self.groups.groups@.len(),
    {
        proof {
            lemma_rev_index_of_partition(self.groups.groups@, node.0 as int);
        }
        self.groups.group_by_node_id(node.0)
    }

    pub fn remaining_ops(&self) -> (r: u8)
        ensures
            r == self.remaining_ops,
    {
        self.remaining_ops
    }

    pub fn current_snapshot(&self) -> (r: &Snapshot)
        ensures
            r == &self.current_snapshot,
    {
        &self.current_snapshot
    }

    /// The previous snapshot; until the first step it aliases the current
    /// one, so trends at turn zero are flat by construction.
    pub fn previous_snapshot(&self) -> (r: &Snapshot)
        ensures
            match self.previous_snapshot {
                Some(p) => *r == p,
                None => *r == self.current_snapshot,
            },
    {
        match &self.previous_snapshot {
            Some(p) => p,
            None => &self.current_snapshot,
        }
    }

    /// Spend one operator action applying `factor` to a group's modifier;
    /// a no-op when the budget is exhausted, and the budget is only spent
    /// when the modifier accepted the factor (it refuses while active).
    fn try_capacity_modifier(&mut self, group_id: usize, factor: u64)
        requires
            old(self).wf(),
            group_id < old(self).groups.groups@.len(),
        ensures
            final(self).wf(),
            final(self).graph == old(self).graph,
            final(self).groups == old(self).groups,
            final(self).scenario == old(self).scenario,
            final(self).previous_snapshot == old(self).previous_snapshot,
            final(self).current_snapshot.turn == old(self).current_snapshot.turn,
            final(self).current_snapshot.node_states == old(self).current_snapshot.node_states,
            final(self).current_snapshot.edge_states == old(self).current_snapshot.edge_states,
            ({
                let mods = old(self).current_snapshot.capacity_mods@;
                let m = mods[group_id as int];
                if old(self).remaining_ops > 0 && !m.active {
                    final(self).current_snapshot.capacity_mods@ == mods.update(
                        group_id as int,
                        m.applied(factor),
                    ) && final(self).remaining_ops == old(self).remaining_ops - 1
                } else {
                    final(self).current_snapshot.capacity_mods@ == mods
                        && final(self).remaining_ops == old(self).remaining_ops
                }
            }),
    {
        if self.remaining_ops > 0 {
            let ok = self.current_snapshot.update_capacity(group_id, factor);
            if ok {
                self.remaining_ops = self.remaining_ops - 1;
            } else {
                proof {
                    assert(self.current_snapshot.capacity_mods@ =~= old(
                        self,
                    ).current_snapshot.capacity_mods@);
                }
            }
        }
    }

    /// Halve the group's effective capacity for a modifier lifetime.
    pub fn try_throttle_group(&mut self, group_id: usize)
        requires
            old(self).wf(),
            group_id < old(self).groups.groups@.len(),
        ensures
            final(self).wf(),
            final(self).graph == old(self).graph,
            final(self).groups == old(self).groups,
            final(self).scenario == old(self).scenario,
            final(self).previous_snapshot == old(self).previous_snapshot,
            final(self).current_snapshot.turn == old(self).current_snapshot.turn,
            final(self).current_snapshot.node_states == old(self).current_snapshot.node_states,
            final(self).current_snapshot.edge_states == old(self).current_snapshot.edge_states,
            ({
                let mods = old(self).current_snapshot.capacity_mods@;
                let m = mods[group_id as int];
                if old(self).remaining_ops > 0 && !m.active {
                    final(self).current_snapshot.capacity_mods@ == mods.update(
                        group_id as int,
                        m.applied(THROTTLE_FACTOR),
                    ) && final(self).remaining_ops == old(self).remaining_ops - 1
                } else {
                    final(self).current_snapshot.capacity_mods@ == mods
                        && final(self).remaining_ops == old(self).remaining_ops
                }
            }),
    {
        self.try_capacity_modifier(group_id, THROTTLE_FACTOR);
    }

    /// Raise the group's effective capacity by half for a modifier lifetime.
    pub fn try_boost_group(&mut self, group_id: usize)
        requires
            old(self).wf(),
            group_id < old(self).groups.groups@.len(),
        ensures
            final(self).wf(),
            final(self).graph == old(self).graph,
            final(self).groups == old(self).groups,
            final(self).scenario == old(self).scenario,
            final(self).previous_snapshot == old(self).previous_snapshot,
            final(self).current_snapshot.turn == old(self).current_snapshot.turn,
            final(self).current_snapshot.node_states == old(self).current_snapshot.node_states,
            final(self).current_snapshot.edge_states == old(self).current_snapshot.edge_states,
            ({
                let mods = old(self).current_snapshot.capacity_mods@;
                let m = mods[group_id as int];
                if old(self).remaining_ops > 0 && !m.active {
                    final(self).current_snapshot.capacity_mods@ == mods.update(
                        group_id as int,
                        m.applied(BOOST_FACTOR),
                    ) && final(self).remaining_ops == old(self).remaining_ops - 1
                } else {
                    final(self).current_snapshot.capacity_mods@ == mods
                        && final(self).remaining_ops == old(self).remaining_ops
                }
            }),
    {
        self.try_capacity_modifier(group_id, BOOST_FACTOR);
    }

    /// One turn: tick the capacity modifiers, propagate flow from healthy
    /// producers and inject scenario load, rewrite every node state, move
    /// the (ticked) current snapshot to previous, install the new one with
    /// the turn advanced by one, and reset the operator budget.
    pub fn step(&mut self)
        requires
            old(self).wf(),
            old(self).current_snapshot.turn < usize::MAX,
        ensures
            final(self).wf(),
            final(self).graph == old(self).graph,
            final(self).groups == old(self).groups,
            final(self).scenario == old(self).scenario,
            final(self).remaining_ops == old(self).scenario.ops_spec(),
            match final(self).previous_snapshot {
                Some(p) => {
                    &&& p.turn == old(self).current_snapshot.turn
                    &&& p.node_states@ == old(self).current_snapshot.node_states@
                    &&& p.edge_states@ == old(self).current_snapshot.edge_states@
                    &&& p.capacity_mods@ == ticked_mods(old(self).current_snapshot.capacity_mods@)
                },
                None => false,
            },
            final(self).current_snapshot.turn == old(self).current_snapshot.turn + 1,
            final(self).current_snapshot.edge_states@ == old(self).current_snapshot.edge_states@,
            final(self).current_snapshot.capacity_mods@ == ticked_mods(
                old(self).current_snapshot.capacity_mods@,
            ),
            final(self).current_snapshot.node_states@.len() == old(self).graph.nodes@.len(),
            forall|v: int|
                0 <= v < old(self).graph.nodes@.len()
                    ==> final(self).current_snapshot.node_states@[v] == spec_next_node_state(
                    old(self).graph.nodes@,
                    old(self).graph.edges@,
                    old(self).groups.node_to_group@,
                    ticked_mods(old(self).current_snapshot.capacity_mods@),
                    old(self).current_snapshot.node_states@,
                    old(self).current_snapshot.edge_states@,
                    old(self).scenario,
                    old(self).current_snapshot.turn as int,
                    v,
                ),
    {
        let ghost nodes_s = self.graph.nodes@;
        let ghost edges_s = self.graph.edges@;
        let ghost ns_s = self.current_snapshot.node_states@;
        let ghost en_s = self.current_snapshot.edge_states@;
        let ghost ntg_s = self.groups.node_to_group@;
        let ghost turn0 = self.current_snapshot.turn as int;

        self.current_snapshot.tick();
        proof {
            assert(self.current_snapshot.capacity_mods@ =~= ticked_mods(
                old(self).current_snapshot.capacity_mods@,
            ));
        }
        let ghost mods_s = self.current_snapshot.capacity_mods@;

        let n = self.graph.node_count();
        let n_edges = self.graph.edges.len();

        let mut prop: Vec<u64> = Vec::new();
        let mut i: usize = 0;
        while i < n
            invariant
                i <= n,
                prop@.len() == i,
                forall|w: int| 0 <= w < i ==> prop@[w] == 0,
            decreases n - i,
        {
            prop.push(0);
            i = i + 1;
        }

        let mut e: usize = 0;
        while e < n_edges
            invariant
                self.graph.wf(),
                nodes_s == self.graph.nodes@,
                edges_s == self.graph.edges@,
                ns_s == self.current_snapshot.node_states@,
                en_s == self.current_snapshot.edge_states@,
                ns_s.len() == nodes_s.len(),
                en_s.len() == edges_s.len(),
                n == nodes_s.len(),
                n_edges == edges_s.len(),
                e <= n_edges,
                prop@.len() == n,
                forall|w: int|
                    0 <= w < n ==> prop@[w] == spec_inflow(nodes_s, edges_s, ns_s, en_s, w, e as int),
            decreases n_edges - e,
        {
            let to = self.graph.edges[e].to.index();
            let load = self.current_snapshot.edge_load(EdgeId(e), &self.graph);
            let cur = prop[to];
            prop.set(to, sat_add(cur, load));
            e = e + 1;
        }

        let ghost inflow_full = |w: int| spec_inflow(nodes_s, edges_s, ns_s, en_s, w, edges_s.len() as int);

        let turn_now = self.current_snapshot.turn();
        let entries = self.scenario.entry_nodes();
        let mut k: usize = 0;
        while k < entries.len()
            invariant
                entries@ == self.scenario.entry_spec(),
                entries_ok(self.scenario, n as int),
                n == nodes_s.len(),
                turn_now as int == turn0,
                k <= entries@.len(),
                prop@.len() == n,
                forall|w: int|
                    0 <= w < n ==> prop@[w] == spec_entry_added(
                        self.scenario,
                        entries@.take(k as int),
                        w,
                        turn0,
                        spec_inflow(nodes_s, edges_s, ns_s, en_s, w, edges_s.len() as int),
                    ),
            decreases entries@.len() - k,
        {
            let id = entries[k];
            let load = self.scenario.load(id, turn_now);
            let cur = prop[id.0];
            prop.set(id.0, sat_add(cur, load));
            k = k + 1;
            proof {
                let kk = k as int;
                assert(entries@.take(kk).drop_last() =~= entries@.take(kk - 1));
                assert(entries@.take(kk).last() == entries@[kk - 1]);
            }
        }
        proof {
            assert(entries@.take(entries@.len() as int) =~= entries@);
        }

        let mut new_states: Vec<NodeState> = Vec::new();
        let mut v: usize = 0;
        while v < n
            invariant
                self.graph.wf(),
                self.groups.wf(),
                is_partition(self.groups.groups@, n as int),
                nodes_s == self.graph.nodes@,
                edges_s == self.graph.edges@,
                ns_s == self.current_snapshot.node_states@,
                en_s == self.current_snapshot.edge_states@,
                ntg_s == self.groups.node_to_group@,
                mods_s == self.current_snapshot.capacity_mods@,
                mods_s.len() == self.groups.groups@.len(),
                ntg_s.len() == n,
                ns_s.len() == n,
                en_s.len() == edges_s.len(),
                n == nodes_s.len(),
                forall|w: int| 0 <= w < n ==> (#[trigger] ns_s[w]).wf(),
                prop@.len() == n,
                forall|w: int|
                    0 <= w < n ==> prop@[w] == spec_demand(
                        nodes_s,
                        edges_s,
                        ns_s,
                        en_s,
                        self.scenario,
                        turn0,
                        w,
                    ),
                v <= n,
                new_states@.len() == v,
                forall|w: int|
                    0 <= w < v ==> new_states@[w] == spec_next_node_state(
                        nodes_s,
                        edges_s,
                        ntg_s,
                        mods_s,
                        ns_s,
                        en_s,
                        self.scenario,
                        turn0,
                        w,
                    ),
                forall|w: int| 0 <= w < v ==> (#[trigger] new_states@[w]).wf(),
            decreases n - v,
        {
            let prev = self.current_snapshot.node_states[v];
            let d = prop[v];
            if !prev.is_healthy() {
                new_states.push(NodeState::new(d, 0, 0, prev.health));
            } else {
                let gid = self.groups.group_by_node_id(v);
                proof {
                    lemma_rev_index_of_partition(self.groups.groups@, v as int);
                }
                let factor = self.current_snapshot.capacity_mod(gid).factor();
                let eff = sat_scale_mul(self.graph.nodes[v].capacity, factor);
                let total = sat_add(d, prev.backlog);
                let served = if eff <= total {
                    eff
                } else {
                    total
                };
                let has_out = self.graph.outgoing(NodeId(v)).len() > 0;
                let has_en = has_enabled_outgoing(
                    &self.graph,
                    &self.current_snapshot.edge_states,
                    v,
                );
                let backlog = if has_out && !has_en {
                    total
                } else {
                    total - served
                };
                let health = compute_health(prev.health, eff, total, backlog);
                new_states.push(NodeState::new(d, served, backlog, health));
            }
            v = v + 1;
        }

        let new_turn = turn_now + 1;
        let prev_snapshot = Snapshot::new(
            turn_now,
            copy_vec(&self.current_snapshot.node_states),
            copy_vec(&self.current_snapshot.edge_states),
            copy_vec(&self.current_snapshot.capacity_mods),
        );
        let new_edge_states = copy_vec(&self.current_snapshot.edge_states);
        let new_mods = copy_vec(&self.current_snapshot.capacity_mods);
        self.previous_snapshot = Some(prev_snapshot);
        self.current_snapshot = Snapshot::new(new_turn, new_states, new_edge_states, new_mods);
        self.remaining_ops = self.scenario.ops_per_turn();
    }
}

/// Every capacity modifier advanced one tick.
pub open spec fn ticked_mods(mods: Seq<CapacityModifier>) -> Seq<CapacityModifier> {
    Seq::new(mods.len(), |i: int| mods[i].ticked())
}

/// Work propagated into `v` by the first `k` edges (accumulated with
/// saturating addition, in edge order).
pub open spec fn spec_inflow(
    nodes: Seq<Node>,
    edges: Seq<Edge>,
    ns: Seq<NodeState>,
    en: Seq<EdgeState>,
    v: int,
    k: int,
) -> int
    decreases k,
{
    if k <= 0 {
        0
    } else {
        let prev = spec_inflow(nodes, edges, ns, en, v, k - 1);
        if edges[k - 1].to.0 == v {
            wadd(prev, spec_edge_load(nodes, edges, ns, en, k - 1))
        } else {
            prev
        }
    }
}

/// `base` plus the scenario load of every entry-list occurrence of `v`.
pub open spec fn spec_entry_added<S: Scenario>(
    sc: S,
    entries: Seq<NodeId>,
    v: int,
    turn: int,
    base: int,
) -> int
    decreases entries.len(),
{
    if entries.len() == 0 {
        base
    } else {
        let b = spec_entry_added(sc, entries.drop_last(), v, turn, base);
        if entries.last().0 == v {
            wadd(b, sc.load_spec(entries.last(), turn) as int)
        } else {
            b
        }
    }
}

/// Total inbound demand of `v` this turn: propagated flow plus external
/// scenario load.
pub open spec fn spec_demand<S: Scenario>(
    nodes: Seq<Node>,
    edges: Seq<Edge>,
    ns: Seq<NodeState>,
    en: Seq<EdgeState>,
    sc: S,
    turn: int,
    v: int,
) -> int {
    spec_entry_added(
        sc,
        sc.entry_spec(),
        v,
        turn,
        spec_inflow(nodes, edges, ns, en, v, edges.len() as int),
    )
}

/// Whether any outgoing edge of `v` is enabled.
pub open spec fn spec_has_enabled_out(edges: Seq<Edge>, en: Seq<EdgeState>, v: int) -> bool {
    exists|j: int|
        0 <= j < adjacency_out(edges, v).len() && en[(#[trigger] adjacency_out(edges, v)[j]).0 as int].enabled
}

/// Health dynamics: overload pressure above one costs health in proportion
/// to the overload; pressure below one with a drained backlog heals one
/// step; otherwise (including a zero effective capacity) health holds.
pub open spec fn spec_next_health(h: int, eff: int, total: int, backlog: int) -> int {
    if eff == 0 {
        h
    } else if total > eff {
        let damage = ((total - eff) * DAMAGE_FACTOR) / eff;
        if damage >= h {
            0
        } else {
            h - damage
        }
    } else if total < eff && backlog == 0 {
        if h + RECOVERY_STEP > SCALE {
            SCALE as int
        } else {
            h + RECOVERY_STEP
        }
    } else {
        h
    }
}

/// One node's next state, given its inbound demand `d`: an unhealthy node
/// is a terminal sink; a healthy one serves up to its effective capacity,
/// keeps the rest as backlog (all of it when its outgoing edges exist but
/// none is enabled), and its health moves per `spec_next_health`.
pub open spec fn spec_node_update(
    nodes: Seq<Node>,
    edges: Seq<Edge>,
    ntg: Seq<usize>,
    mods: Seq<CapacityModifier>,
    prev: NodeState,
    en: Seq<EdgeState>,
    d: int,
    v: int,
) -> NodeState {
    if !prev.healthy() {
        NodeState { demand: d as u64, served: 0, backlog: 0, health: prev.health }
    } else {
        let factor = mods[ntg[v] as int].factor_spec();
        let eff = scale_mul(nodes[v].capacity as int, factor as int);
        let total = wadd(d, prev.backlog as int);
        let served = if eff <= total {
            eff
        } else {
            total
        };
        let has_out = adjacency_out(edges, v).len() > 0;
        let has_en = spec_has_enabled_out(edges, en, v);
        let backlog = if has_out && !has_en {
            total
        } else {
            total - served
        };
        let health = spec_next_health(prev.health as int, eff, total, backlog);
        NodeState {
            demand: d as u64,
            served: served as u64,
            backlog: backlog as u64,
            health: health as u64,
        }
    }
}

/// The next state of node `v` after one engine step over the (already
/// ticked) snapshot components.
pub open spec fn spec_next_node_state<S: Scenario>(
    nodes: Seq<Node>,
    edges: Seq<Edge>,
    ntg: Seq<usize>,
    mods: Seq<CapacityModifier>,
    ns: Seq<NodeState>,
    en: Seq<EdgeState>,
    sc: S,
    turn: int,
    v: int,
) -> NodeState {
    spec_node_update(
        nodes,
        edges,
        ntg,
        mods,
        ns[v],
        en,
        spec_demand(nodes, edges, ns, en, sc, turn, v),
        v,
    )
}

fn compute_health(h: u64, eff: u64, total: u64, backlog: u64) -> (r: u64)
    requires
        h <= SCALE,
    ensures
        r == spec_next_health(h as int, eff as int, total as int, backlog as int),
        r <= SCALE,
{
    if eff == 0 {
        return h;
    }
    if total > eff {
        let over = total - eff;
        proof {
            crate::arith::lemma_u64_prod_fits(over as int, DAMAGE_FACTOR as int);
            assert(((over as int) * (DAMAGE_FACTOR as int)) / (eff as int) >= 0)
                by (nonlinear_arith)
                requires
                    0 <= (over as int) * (DAMAGE_FACTOR as int),
                    eff > 0,
            ;
        }
        let damage: u128 = (over as u128) * (DAMAGE_FACTOR as u128) / (eff as u128);
        if damage >= h as u128 {
            0
        } else {
            h - (damage as u64)
        }
    } else if total < eff && backlog == 0 {
        if h + RECOVERY_STEP > SCALE {
            SCALE
        } else {
            h + RECOVERY_STEP
        }
    } else {
        h
    }
}

fn has_enabled_outgoing(graph: &Graph, edge_states: &Vec<EdgeState>, v: usize) -> (r: bool)
    requires
        graph.wf(),
        v < graph.nodes@.len(),
        edge_states@.len() == graph.edges@.len(),
    ensures
        r == spec_has_enabled_out(graph.edges@, edge_states@, v as int),
{
    let adj = graph.outgoing(NodeId(v));
    proof {
        lemma_adjacency_out_props(graph.edges@, v as int);
    }
    let mut j: usize = 0;
    while j < adj.len()
        invariant
            graph.wf(),
            v < graph.nodes@.len(),
            edge_states@.len() == graph.edges@.len(),
            adj@ == adjacency_out(graph.edges@, v as int),
            forall|p: int|
                0 <= p < adj@.len() ==> (#[trigger] adj@[p]).0 < graph.edges@.len(),
            j <= adj@.len(),
            forall|p: int|
                0 <= p < j ==> !edge_states@[(#[trigger] adj@[p]).0 as int].enabled,
        decreases adj@.len() - j,
    {
        if edge_states[adj[j].0].is_enabled() {
            return true;
        }
        j = j + 1;
    }
    false
}

fn copy_vec<T: Copy>(v: &Vec<T>) -> (r: Vec<T>)
    ensures
        r@ == v@,
{
    let mut r: Vec<T> = Vec::new();
    let mut i: usize = 0;
    while i < v.len()
        invariant
            i <= v@.len(),
            r@ == v@.take(i as int),
        decreases v@.len() - i,
    {
        r.push(v[i]);
        proof {
            assert(v@.take(i + 1).drop_last() =~= v@.take(i as int));
            assert(v@.take(i + 1).last() == v@[i as int]);
            assert(r@ =~= v@.take(i + 1));
        }
        i = i + 1;
    }
    proof {
        assert(v@.take(v@.len() as int) =~= v@);
    }
    r
}

} // verus!
