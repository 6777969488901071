use vstd::prelude::*;

verus! {

/// Dense index of a node in its graph.
#[derive(Clone, Copy, Debug, PartialEq, Eq, Structural)]
pub struct NodeId(pub usize);

impl NodeId {
    pub fn index(self) -> (r: usize)
        ensures
            r == self.0,
    {
        self.0
    }
}

/// Dense index of an edge in its graph.
#[derive(Clone, Copy, Debug, PartialEq, Eq, Structural)]
pub struct EdgeId(pub usize);

impl EdgeId {
    pub fn index(self) -> (r: usize)
        ensures
            r == self.0,
    {
        self.0
    }
}

/// A service with a nominal capacity and a gain: the node forwards
/// `served * gain` (fixed-point) to its downstream neighbours.
pub struct Node {
    pub id: NodeId,
    pub name: String,
    pub capacity: u64,
    pub gain: u64,
}

impl Node {
    pub fn new(id: NodeId, name: String, capacity: u64, gain: u64) -> (r: Node)
        ensures
            r.id == id,
            r.name@ == name@,
            r.capacity == capacity,
            r.gain == gain,
    {
        Node { id, name, capacity, gain }
    }

    pub fn id(&self) -> (r: &NodeId)
        ensures
            *r == self.id,
    {
        &self.id
    }

    pub fn name(&self) -> (r: &str)
        ensures
            r@ == self.name@,
    {
        self.name.as_str()
    }

    pub fn capacity(&self) -> (r: u64)
        ensures
            r == self.capacity,
    {
        self.capacity
    }

    pub fn gain(&self) -> (r: u64)
        ensures
            r == self.gain,
    {
        self.gain
    }
}

/// A directed, statically weighted link between two nodes.
pub struct Edge {
    pub id: EdgeId,
    pub from: NodeId,
    pub to: NodeId,
    pub weight: u64,
}

impl Edge {
    pub fn new(id: EdgeId, from: NodeId, to: NodeId, weight: u64) -> (r: Edge)
        ensures
            r.id == id,
            r.from == from,
            r.to == to,
            r.weight == weight,
    {
        Edge { id, from, to, weight }
    }

    pub fn id(&self) -> (r: EdgeId)
        ensures
            r == self.id,
    {
        self.id
    }

    pub fn from(&self) -> (r: NodeId)
        ensures
            r == self.from,
    {
        self.from
    }

    pub fn to(&self) -> (r: NodeId)
        ensures
            r == self.to,
    {
        self.to
    }

    pub fn weight(&self) -> (r: u64)
        ensures
            r == self.weight,
    {
        self.weight
    }
}

/// The edge ids of `edges` whose source is node `v`, in increasing order.
pub open spec fn adjacency_out(edges: Seq<Edge>, v: int) -> Seq<EdgeId>
    decreases edges.len(),
{
    if edges.len() == 0 {
        Seq::empty()
    } else if edges.last().from.0 == v {
        adjacency_out(edges.drop_last(), v).push(edges.last().id)
    } else {
        adjacency_out(edges.drop_last(), v)
    }
}

/// The edge ids of `edges` whose target is node `v`, in increasing order.
pub open spec fn adjacency_in(edges: Seq<Edge>, v: int) -> Seq<EdgeId>
    decreases edges.len(),
{
    if edges.len() == 0 {
        Seq::empty()
    } else if edges.last().to.0 == v {
        adjacency_in(edges.drop_last(), v).push(edges.last().id)
    } else {
        adjacency_in(edges.drop_last(), v)
    }
}

/// Every edge id is its index in the edge list.
pub open spec fn edges_dense(edges: Seq<Edge>) -> bool {
    forall|i: int| 0 <= i < edges.len() ==> (#[trigger] edges[i]).id.0 == i
}

/// With dense edge ids, the outgoing adjacency of `v` holds exactly the
/// indices of the edges leaving `v`, each once, in increasing order.
pub proof fn lemma_adjacency_out_props(edges: Seq<Edge>, v: int)
    requires
        edges_dense(edges),
    ensures
        forall|j: int|
            0 <= j < adjacency_out(edges, v).len() ==> (#[trigger] adjacency_out(edges, v)[j]).0
                < edges.len() && edges[adjacency_out(edges, v)[j].0 as int].from.0 == v,
        forall|j1: int, j2: int|
            0 <= j1 < j2 < adjacency_out(edges, v).len() ==> (#[trigger] adjacency_out(
                edges,
                v,
            )[j1]).0 < (#[trigger] adjacency_out(edges, v)[j2]).0,
        forall|e: int|
            0 <= e < edges.len() && (#[trigger] edges[e]).from.0 == v ==> adjacency_out(
                edges,
                v,
            ).contains(EdgeId(e as usize)),
    decreases edges.len(),
{
    if edges.len() > 0 {
        let pre = edges.drop_last();
        assert(forall|i: int| 0 <= i < pre.len() ==> pre[i] == #[trigger] edges[i]);
        assert(edges_dense(pre));
        lemma_adjacency_out_props(pre, v);
        let adj = adjacency_out(edges, v);
        let padj = adjacency_out(pre, v);
        if edges.last().from.0 == v {
            assert(adj == padj.push(edges.last().id));
            assert(edges.last().id.0 == edges.len() - 1);
            assert(forall|e: int|
                0 <= e < edges.len() && (#[trigger] edges[e]).from.0 == v ==> adj.contains(
                    EdgeId(e as usize),
                )) by {
                assert(forall|e: int|
                    0 <= e < pre.len() && (#[trigger] pre[e]).from.0 == v ==> padj.contains(
                        EdgeId(e as usize),
                    ));
                assert(forall|k: int|
                    0 <= k < padj.len() ==> adj[k] == #[trigger] padj[k] && adj.contains(adj[k]));
                assert(adj[adj.len() - 1] == edges.last().id);
                assert(adj.contains(EdgeId((edges.len() - 1) as usize)));
                assert(forall|e: int|
                    0 <= e < edges.len() - 1 && (#[trigger] edges[e]).from.0 == v ==> pre[e].from.0
                        == v && padj.contains(EdgeId(e as usize)));
            }
        } else {
            assert(adj == padj);
            assert(forall|e: int|
                0 <= e < edges.len() - 1 && (#[trigger] edges[e]).from.0 == v ==> pre[e].from.0
                    == v);
        }
    }
}

/// The same, for the incoming adjacency.
pub proof fn lemma_adjacency_in_props(edges: Seq<Edge>, v: int)
    requires
        edges_dense(edges),
    ensures
        forall|j: int|
            0 <= j < adjacency_in(edges, v).len() ==> (#[trigger] adjacency_in(edges, v)[j]).0
                < edges.len() && edges[adjacency_in(edges, v)[j].0 as int].to.0 == v,
        forall|j1: int, j2: int|
            0 <= j1 < j2 < adjacency_in(edges, v).len() ==> (#[trigger] adjacency_in(
                edges,
                v,
            )[j1]).0 < (#[trigger] adjacency_in(edges, v)[j2]).0,
        forall|e: int|
            0 <= e < edges.len() && (#[trigger] edges[e]).to.0 == v ==> adjacency_in(
                edges,
                v,
            ).contains(EdgeId(e as usize)),
    decreases edges.len(),
{
    if edges.len() > 0 {
        let pre = edges.drop_last();
        assert(forall|i: int| 0 <= i < pre.len() ==> pre[i] == #[trigger] edges[i]);
        assert(edges_dense(pre));
        lemma_adjacency_in_props(pre, v);
        let adj = adjacency_in(edges, v);
        let padj = adjacency_in(pre, v);
        if edges.last().to.0 == v {
            assert(adj == padj.push(edges.last().id));
            assert(edges.last().id.0 == edges.len() - 1);
            assert(forall|e: int|
                0 <= e < edges.len() && (#[trigger] edges[e]).to.0 == v ==> adj.contains(
                    EdgeId(e as usize),
                )) by {
                assert(forall|e: int|
                    0 <= e < pre.len() && (#[trigger] pre[e]).to.0 == v ==> padj.contains(
                        EdgeId(e as usize),
                    ));
                assert(forall|k: int|
                    0 <= k < padj.len() ==> adj[k] == #[trigger] padj[k] && adj.contains(adj[k]));
                assert(adj[adj.len() - 1] == edges.last().id);
                assert(adj.contains(EdgeId((edges.len() - 1) as usize)));
                assert(forall|e: int|
                    0 <= e < edges.len() - 1 && (#[trigger] edges[e]).to.0 == v ==> pre[e].to.0
                        == v && padj.contains(EdgeId(e as usize)));
            }
        } else {
            assert(adj == padj);
            assert(forall|e: int|
                0 <= e < edges.len() - 1 && (#[trigger] edges[e]).to.0 == v ==> pre[e].to.0 == v);
        }
    }
}

/// Immutable topology: nodes, edges, and precomputed adjacency lists.
pub struct Graph {
    pub nodes: Vec<Node>,
    pub edges: Vec<Edge>,
    pub outgoing: Vec<Vec<EdgeId>>,
    pub incoming: Vec<Vec<EdgeId>>,
}

impl Graph {
    /// Node and edge ids are their indices, every edge endpoint is a valid
    /// node index, and the adjacency lists agree with the edge list.
    pub open spec fn wf(self) -> bool {
        &&& forall|i: int| 0 <= i < self.nodes@.len() ==> (#[trigger] self.nodes@[i]).id.0 == i
        &&& forall|i: int|
            0 <= i < self.edges@.len() ==> (#[trigger] self.edges@[i]).id.0 == i
                && self.edges@[i].from.0 < self.nodes@.len() && self.edges@[i].to.0
                < self.nodes@.len()
        &&& self.outgoing@.len() == self.nodes@.len()
        &&& self.incoming@.len() == self.nodes@.len()
        &&& forall|v: int|
            0 <= v < self.nodes@.len() ==> (#[trigger] self.outgoing@[v])@ == adjacency_out(
                self.edges@,
                v,
            )
        &&& forall|v: int|
            0 <= v < self.nodes@.len() ==> (#[trigger] self.incoming@[v])@ == adjacency_in(
                self.edges@,
                v,
            )
    }

    pub fn new(nodes: Vec<Node>, edges: Vec<Edge>) -> (r: Graph)
        requires
            forall|i: int| 0 <= i < nodes@.len() ==> (#[trigger] nodes@[i]).id.0 == i,
            forall|i: int|
                0 <= i < edges@.len() ==> (#[trigger] edges@[i]).id.0 == i && edges@[i].from.0
                    < nodes@.len() && edges@[i].to.0 < nodes@.len(),
        ensures
            r.wf(),
            r.nodes == nodes,
            r.edges == edges,
    {
        let n = nodes.len();
        let mut outgoing: Vec<Vec<EdgeId>> = Vec::new();
        let mut incoming: Vec<Vec<EdgeId>> = Vec::new();
        let mut v: usize = 0;
        while v < n
            invariant
                outgoing@.len() == v,
                incoming@.len() == v,
                v <= n,
                n == nodes@.len(),
                forall|u: int|
                    0 <= u < v ==> (#[trigger] outgoing@[u])@ == adjacency_out(edges@, u),
                forall|u: int|
                    0 <= u < v ==> (#[trigger] incoming@[u])@ == adjacency_in(edges@, u),
            decreases n - v,
        {
            outgoing.push(Self::edges_from(&edges, v));
            incoming.push(Self::edges_into(&edges, v));
            v = v + 1;
        }
        Graph { nodes, edges, outgoing, incoming }
    }

    fn edges_from(edges: &Vec<Edge>, v: usize) -> (r: Vec<EdgeId>)
        ensures
            r@ == adjacency_out(edges@, v as int),
    {
        let mut r: Vec<EdgeId> = Vec::new();
        let mut k: usize = 0;
        while k < edges.len()
            invariant
                k <= edges@.len(),
                r@ == adjacency_out(edges@.take(k as int), v as int),
            decreases edges@.len() - k,
        {
            proof {
                assert(edges@.take(k + 1).drop_last() =~= edges@.take(k as int));
                assert(edges@.take(k + 1).last() == edges@[k as int]);
            }
            if edges[k].from.0 == v {
                r.push(edges[k].id);
            }
            k = k + 1;
        }
        proof {
            assert(edges@.take(edges@.len() as int) =~= edges@);
        }
        r
    }

    fn edges_into(edges: &Vec<Edge>, v: usize) -> (r: Vec<EdgeId>)
        ensures
            r@ == adjacency_in(edges@, v as int),
    {
        let mut r: Vec<EdgeId> = Vec::new();
        let mut k: usize = 0;
        while k < edges.len()
            invariant
                k <= edges@.len(),
                r@ == adjacency_in(edges@.take(k as int), v as int),
            decreases edges@.len() - k,
        {
            proof {
                assert(edges@.take(k + 1).drop_last() =~= edges@.take(k as int));
                assert(edges@.take(k + 1).last() == edges@[k as int]);
            }
            if edges[k].to.0 == v {
                r.push(edges[k].id);
            }
            k = k + 1;
        }
        proof {
            assert(edges@.take(edges@.len() as int) =~= edges@);
        }
        r
    }

    pub fn nodes(&self) -> (r: &Vec<Node>)
        ensures
            r == &self.nodes,
    {
        &self.nodes
    }

    pub fn edges(&self) -> (r: &Vec<Edge>)
        ensures
            r == &self.edges,
    {
        &self.edges
    }

    pub fn node_by_id(&self, id: NodeId) -> (r: &Node)
        requires
            id.0 < self.nodes@.len(),
        ensures
            *r == self.nodes@[id.0 as int],
    {
        &self.nodes[id.0]
    }

    pub fn edge_by_id(&self, id: EdgeId) -> (r: &Edge)
        requires
            id.0 < self.edges@.len(),
        ensures
            *r == self.edges@[id.0 as int],
    {
        &self.edges[id.0]
    }

    pub fn outgoing(&self, id: NodeId) -> (r: &Vec<EdgeId>)
        requires
            id.0 < self.outgoing@.len(),
        ensures
            *r == self.outgoing@[id.0 as int],
    {
        &self.outgoing[id.0]
    }

    pub fn incoming(&self, id: NodeId) -> (r: &Vec<EdgeId>)
        requires
            id.0 < self.incoming@.len(),
        ensures
            *r == self.incoming@[id.0 as int],
    {
        &self.incoming[id.0]
    }

    pub fn node_count(&self) -> (r: usize)
        ensures
            r == self.nodes@.len(),
    {
        self.nodes.len()
    }
}

} // verus!
