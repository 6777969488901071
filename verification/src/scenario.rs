use vstd::prelude::*;

use crate::arith::{sat_add, sat_mul, wadd, wmul, SCALE};
use crate::graph::{Edge, EdgeId, Graph, Node, NodeId};
use crate::groups::{total_count, Group, GroupSet};
use crate::modifiers::CapacityModifier;
use crate::snapshot::Snapshot;
use crate::state::{EdgeState, NodeState};

verus! {

/// An external load source: a pure function from (node, turn) to injected
/// demand, together with the entry nodes it feeds and the per-turn operator
/// budget. `load` must return exactly `load_spec`, so a scenario is
/// deterministic by contract.
pub trait Scenario: Sized {
    /// The injected load as a mathematical function of node and turn.
    spec fn load_spec(&self, node: NodeId, turn: int) -> u64;

    /// The nodes that receive external load.
    spec fn entry_spec(&self) -> Seq<NodeId>;

    /// Operator actions allowed per turn.
    spec fn ops_spec(&self) -> u8;

    fn load(&self, node_id: NodeId, turn: usize) -> (r: u64)
        ensures
            r == self.load_spec(node_id, turn as int),
    ;

    fn entry_nodes(&self) -> (r: &Vec<NodeId>)
        ensures
            r@ == self.entry_spec(),
    ;

    fn ops_per_turn(&self) -> (r: u8)
        ensures
            r == self.ops_spec(),
    ;
}

/// Whether a node list holds the given id.
pub open spec fn spec_contains_node(nodes: Seq<NodeId>, id: NodeId) -> bool {
    exists|i: int| 0 <= i < nodes.len() && nodes[i] == id
}

fn contains_node(nodes: &Vec<NodeId>, id: NodeId) -> (r: bool)
    ensures
        r == spec_contains_node(nodes@, id),
{
    let mut i: usize = 0;
    while i < nodes.len()
        invariant
            i <= nodes@.len(),
            forall|k: int| 0 <= k < i ==> nodes@[k] != id,
        decreases nodes@.len() - i,
    {
        if nodes[i].0 == id.0 {
            return true;
        }
        i = i + 1;
    }
    false
}

/// Node ids are dense in the list under construction.
pub open spec fn nodes_dense(nodes: Seq<Node>) -> bool {
    forall|i: int| 0 <= i < nodes.len() ==> (#[trigger] nodes[i]).id.0 == i
}

/// Edge ids are dense and endpoints name one of `n` nodes.
pub open spec fn edges_bounded(edges: Seq<Edge>, n: int) -> bool {
    forall|i: int|
        0 <= i < edges.len() ==> (#[trigger] edges[i]).id.0 == i && edges[i].from.0 < n
            && edges[i].to.0 < n
}

fn push_node(nodes: &mut Vec<Node>, name: &str, capacity: u64, gain: u64)
    requires
        nodes_dense(old(nodes)@),
        old(nodes)@.len() < usize::MAX,
    ensures
        nodes_dense(final(nodes)@),
        final(nodes)@.len() == old(nodes)@.len() + 1,
{
    let id = nodes.len();
    nodes.push(Node::new(NodeId(id), name.to_owned(), capacity, gain));
}

fn push_edge(edges: &mut Vec<Edge>, from: usize, to: usize, weight: u64, n: usize)
    requires
        edges_bounded(old(edges)@, n as int),
        from < n,
        to < n,
        old(edges)@.len() < usize::MAX,
    ensures
        edges_bounded(final(edges)@, n as int),
        final(edges)@.len() == old(edges)@.len() + 1,
{
    let id = edges.len();
    edges.push(Edge::new(EdgeId(id), NodeId(from), NodeId(to), weight));
}

/// A load that starts at `base_load` and grows by `ramp_per_turn` each
/// turn, capped at `max_load`, injected at every entry node.
pub struct BasicScenario {
    pub entry: Vec<NodeId>,
    pub base_load: u64,
    pub ramp_per_turn: u64,
    pub max_load: u64,
}

impl BasicScenario {
    pub fn new(entry: Vec<NodeId>, base_load: u64, ramp_per_turn: u64, max_load: u64) -> (r:
        BasicScenario)
        ensures
            r.entry == entry,
            r.base_load == base_load,
            r.ramp_per_turn == ramp_per_turn,
            r.max_load == max_load,
    {
        BasicScenario { entry, base_load, ramp_per_turn, max_load }
    }
}

impl BasicScenario {
    /// The built-in demonstration mesh: two ingress nodes fan out through
    /// an auth service, order handlers and a cache tier to three databases,
    /// under a slowly ramping load at the ingress pair.
    pub fn build() -> (r: (Graph, GroupSet, Snapshot, BasicScenario))
        ensures
            r.0.wf(),
            r.1.wf(),
            r.2.matches(r.0),
            r.2.wf(),
            r.2.capacity_mods@.len() == r.1.groups@.len(),
            r.2.turn == 0,
            forall|i: int| 0 <= i < r.3.entry_spec().len() ==> (#[trigger] r.3.entry_spec()[i]).0 < r.0.nodes@.len(),
    {
        let n: usize = 12;
        let mut nodes: Vec<Node> = Vec::new();
        push_node(&mut nodes, "api-1", 200 * SCALE, 1800);
        push_node(&mut nodes, "api-2", 200 * SCALE, 1600);
        push_node(&mut nodes, "auth", 80 * SCALE, 1000);
        push_node(&mut nodes, "orders-1", 100 * SCALE, 1200);
        push_node(&mut nodes, "orders-2", 100 * SCALE, 1200);
        push_node(&mut nodes, "cache-1", 300 * SCALE, 700);
        push_node(&mut nodes, "cache-2", 300 * SCALE, 700);
        push_node(&mut nodes, "cache-3", 300 * SCALE, 700);
        push_node(&mut nodes, "cache-4", 300 * SCALE, 700);
        push_node(&mut nodes, "db-1", 60 * SCALE, 0);
        push_node(&mut nodes, "db-2", 60 * SCALE, 0);
        push_node(&mut nodes, "db-3", 60 * SCALE, 0);

        let mut edges: Vec<Edge> = Vec::new();
        let mut api: usize = 0;
        while api < 2
            invariant
                api <= 2,
                edges_bounded(edges@, n as int),
                edges@.len() == api * 7,
                n == 12,
            decreases 2 - api,
        {
            push_edge(&mut edges, api, 2, SCALE, n);
            let mut orders: usize = 3;
            while orders < 5
                invariant
                    api < 2,
                    3 <= orders <= 5,
                    edges_bounded(edges@, n as int),
                    edges@.len() == api * 7 + 1 + (orders - 3),
                    n == 12,
                decreases 5 - orders,
            {
                push_edge(&mut edges, api, orders, SCALE, n);
                orders = orders + 1;
            }
            let mut cache: usize = 5;
            while cache < 9
                invariant
                    api < 2,
                    5 <= cache <= 9,
                    edges_bounded(edges@, n as int),
                    edges@.len() == api * 7 + 3 + (cache - 5),
                    n == 12,
                decreases 9 - cache,
            {
                push_edge(&mut edges, api, cache, 4 * SCALE, n);
                cache = cache + 1;
            }
            api = api + 1;
        }
        let mut cache: usize = 5;
        while cache < 9
            invariant
                5 <= cache <= 9,
                edges_bounded(edges@, n as int),
                edges@.len() == 14 + (cache - 5) * 3,
                n == 12,
            decreases 9 - cache,
        {
            push_edge(&mut edges, cache, 9, SCALE, n);
            push_edge(&mut edges, cache, 10, SCALE, n);
            push_edge(&mut edges, cache, 11, 800, n);
            cache = cache + 1;
        }
        let mut orders: usize = 3;
        while orders < 5
            invariant
                3 <= orders <= 5,
                edges_bounded(edges@, n as int),
                edges@.len() == 26 + (orders - 3) * 3,
                n == 12,
            decreases 5 - orders,
        {
            push_edge(&mut edges, orders, 9, SCALE, n);
            push_edge(&mut edges, orders, 10, SCALE, n);
            push_edge(&mut edges, orders, 11, SCALE, n);
            orders = orders + 1;
        }

        let graph = Graph::new(nodes, edges);

        let mut ingress: Vec<NodeId> = Vec::new();
        ingress.push(NodeId(0));
        ingress.push(NodeId(1));
        let mut auth: Vec<NodeId> = Vec::new();
        auth.push(NodeId(2));
        let mut orders_g: Vec<NodeId> = Vec::new();
        orders_g.push(NodeId(3));
        orders_g.push(NodeId(4));
        let mut cache_g: Vec<NodeId> = Vec::new();
        cache_g.push(NodeId(5));
        cache_g.push(NodeId(6));
        cache_g.push(NodeId(7));
        cache_g.push(NodeId(8));
        let mut db_g: Vec<NodeId> = Vec::new();
        db_g.push(NodeId(9));
        db_g.push(NodeId(10));
        db_g.push(NodeId(11));

        let mut group_list: Vec<Group> = Vec::new();
        group_list.push(Group::new("Ingress".to_owned(), ingress));
        group_list.push(Group::new("Auth".to_owned(), auth));
        group_list.push(Group::new("Orders".to_owned(), orders_g));
        group_list.push(Group::new("Cache".to_owned(), cache_g));
        group_list.push(Group::new("Database".to_owned(), db_g));
        proof {
            let gs = group_list@;
            assert(gs.drop_last() =~= gs.take(4));
            assert(gs.take(4).drop_last() =~= gs.take(3));
            assert(gs.take(3).drop_last() =~= gs.take(2));
            assert(gs.take(2).drop_last() =~= gs.take(1));
            assert(gs.take(1).drop_last() =~= gs.take(0));
            assert(total_count(gs.take(0)) == 0);
            assert(total_count(gs.take(1)) == 2);
            assert(total_count(gs.take(2)) == 3);
            assert(total_count(gs.take(3)) == 5);
            assert(total_count(gs.take(4)) == 9);
            assert(total_count(gs) == 12);
        }
        let groups = GroupSet::new(group_list);

        let n_nodes = graph.node_count();
        let mut node_states: Vec<NodeState> = Vec::new();
        let mut i: usize = 0;
        while i < n_nodes
            invariant
                i <= n_nodes,
                node_states@.len() == i,
                forall|k: int| 0 <= k < i ==> (#[trigger] node_states@[k]).wf(),
            decreases n_nodes - i,
        {
            node_states.push(NodeState::new(0, 0, 0, SCALE));
            i = i + 1;
        }
        let n_edges = graph.edges.len();
        let mut edge_states: Vec<EdgeState> = Vec::new();
        let mut j: usize = 0;
        while j < n_edges
            invariant
                j <= n_edges,
                edge_states@.len() == j,
            decreases n_edges - j,
        {
            edge_states.push(EdgeState::new(true));
            j = j + 1;
        }
        let n_groups = groups.groups.len();
        let mut capacity_mods: Vec<CapacityModifier> = Vec::new();
        let mut k: usize = 0;
        while k < n_groups
            invariant
                k <= n_groups,
                capacity_mods@.len() == k,
                forall|w: int| 0 <= w < k ==> (#[trigger] capacity_mods@[w]).wf(),
            decreases n_groups - k,
        {
            capacity_mods.push(CapacityModifier::new());
            k = k + 1;
        }
        let snapshot = Snapshot::new(0, node_states, edge_states, capacity_mods);

        let mut entry: Vec<NodeId> = Vec::new();
        entry.push(NodeId(0));
        entry.push(NodeId(1));
        let scenario = BasicScenario::new(entry, 20 * SCALE, 5 * SCALE, 400 * SCALE);

        (graph, groups, snapshot, scenario)
    }
}

impl Scenario for BasicScenario {
    open spec fn load_spec(&self, node: NodeId, turn: int) -> u64 {
        if spec_contains_node(self.entry@, node) {
            let ramped = wadd(self.base_load as int, wmul(self.ramp_per_turn as int, turn));
            if ramped > self.max_load {
                self.max_load
            } else {
                ramped as u64
            }
        } else {
            0
        }
    }

    open spec fn entry_spec(&self) -> Seq<NodeId> {
        self.entry@
    }

    open spec fn ops_spec(&self) -> u8 {
        1
    }

    fn load(&self, node_id: NodeId, turn: usize) -> (r: u64)
        ensures
            r == self.load_spec(node_id, turn as int),
    {
        if contains_node(&self.entry, node_id) {
            let ramped = sat_add(self.base_load, sat_mul(self.ramp_per_turn, turn as u64));
            if ramped > self.max_load {
                self.max_load
            } else {
                ramped
            }
        } else {
            0
        }
    }

    fn entry_nodes(&self) -> (r: &Vec<NodeId>)
        ensures
            r@ == self.entry_spec(),
    {
        &self.entry
    }

    fn ops_per_turn(&self) -> (r: u8)
        ensures
            r == self.ops_spec(),
    {
        1
    }
}

/// A load given turn by turn as a table: entry nodes receive the table
/// entry for the current turn, and nothing once the table is exhausted.
pub struct TableScenario {
    pub entry: Vec<NodeId>,
    pub loads: Vec<u64>,
}

impl TableScenario {
    pub fn new(entry: Vec<NodeId>, loads: Vec<u64>) -> (r: TableScenario)
        ensures
            r.entry == entry,
            r.loads == loads,
    {
        TableScenario { entry, loads }
    }
}

impl Scenario for TableScenario {
    open spec fn load_spec(&self, node: NodeId, turn: int) -> u64 {
        if spec_contains_node(self.entry@, node) && 0 <= turn < self.loads@.len() {
            self.loads@[turn]
        } else {
            0
        }
    }

    open spec fn entry_spec(&self) -> Seq<NodeId> {
        self.entry@
    }

    open spec fn ops_spec(&self) -> u8 {
        1
    }

    fn load(&self, node_id: NodeId, turn: usize) -> (r: u64)
        ensures
            r == self.load_spec(node_id, turn as int),
    {
        if turn < self.loads.len() && contains_node(&self.entry, node_id) {
            self.loads[turn]
        } else {
            0
        }
    }

    fn entry_nodes(&self) -> (r: &Vec<NodeId>)
        ensures
            r@ == self.entry_spec(),
    {
        &self.entry
    }

    fn ops_per_turn(&self) -> (r: u8)
        ensures
            r == self.ops_spec(),
    {
        1
    }
}

} // verus!
