use vstd::prelude::*;

use crate::arith::SCALE;

verus! {

/// Per-node mutable quantities, all fixed-point work units; `health` ranges
/// over `0..=SCALE` (one `SCALE` is full health).
#[derive(Clone, Copy, Debug, PartialEq, Eq, Structural)]
pub struct NodeState {
    pub demand: u64,
    pub served: u64,
    pub backlog: u64,
    pub health: u64,
}

impl NodeState {
    pub open spec fn wf(self) -> bool {
        self.health <= SCALE
    }

    /// A node is healthy while its health is strictly positive.
    pub open spec fn healthy(self) -> bool {
        self.health > 0
    }

    pub fn new(demand: u64, served: u64, backlog: u64, health: u64) -> (r: NodeState)
        ensures
            r == (NodeState { demand, served, backlog, health }),
    {
        NodeState { demand, served, backlog, health }
    }

    pub fn demand(&self) -> (r: u64)
        ensures
            r == self.demand,
    {
        self.demand
    }

    pub fn served(&self) -> (r: u64)
        ensures
            r == self.served,
    {
        self.served
    }

    pub fn backlog(&self) -> (r: u64)
        ensures
            r == self.backlog,
    {
        self.backlog
    }

    pub fn health(&self) -> (r: u64)
        ensures
            r == self.health,
    {
        self.health
    }

    pub fn set_demand(&mut self, load: u64)
        ensures
            *final(self) == (NodeState { demand: load, ..*old(self) }),
    {
        self.demand = load;
    }

    pub fn set_served(&mut self, load: u64)
        ensures
            *final(self) == (NodeState { served: load, ..*old(self) }),
    {
        self.served = load;
    }

    pub fn set_backlog(&mut self, load: u64)
        ensures
            *final(self) == (NodeState { backlog: load, ..*old(self) }),
    {
        self.backlog = load;
    }

    /// Health is clamped to the valid range `0..=SCALE`.
    pub fn set_health(&mut self, health: u64)
        ensures
            *final(self) == (NodeState {
                health: if health > SCALE {
                    SCALE
                } else {
                    health
                },
                ..*old(self)
            }),
            final(self).wf(),
    {
        self.health = if health > SCALE {
            SCALE
        } else {
            health
        };
    }

    pub fn is_healthy(&self) -> (r: bool)
        ensures
            r == self.healthy(),
    {
        self.health > 0
    }
}

/// Per-edge mutable state: a disabled edge carries no flow.
#[derive(Clone, Copy, Debug, PartialEq, Eq, Structural)]
pub struct EdgeState {
    pub enabled: bool,
}

impl EdgeState {
    pub fn new(enabled: bool) -> (r: EdgeState)
        ensures
            r == (EdgeState { enabled }),
    {
        EdgeState { enabled }
    }

    pub fn is_enabled(&self) -> (r: bool)
        ensures
            r == self.enabled,
    {
        self.enabled
    }
}

} // verus!
