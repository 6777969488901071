use meshsim::engine::SimulationEngine;
use meshsim::graph::{Edge, EdgeId, Graph, Node, NodeId};
use meshsim::groups::{Group, GroupSet};
use meshsim::modifiers::CapacityModifier;
use meshsim::scenario::TableScenario;
use meshsim::snapshot::Snapshot;
use meshsim::state::{EdgeState, NodeState};

fn snapshot(graph: &Graph, group_cnt: usize) -> Snapshot {
    Snapshot::new(
        0,
        graph
            .nodes()
            .iter()
            .map(|_| NodeState::new(0, 0, 0, 1000))
            .collect(),
        graph.edges().iter().map(|_| EdgeState::new(true)).collect(),
        vec![CapacityModifier::new(); group_cnt],
    )
}

#[test]
fn test_one_hop_propagation() {
    let api = Node::new(NodeId(0), "api".to_string(), 100_000, 1000);
    let db = Node::new(NodeId(1), "db".to_string(), 60_000, 1000);
    let link = Edge::new(EdgeId(0), NodeId(0), NodeId(1), 1000);

    let graph = Graph::new(vec![api, db], vec![link]);
    let initial_snapshot = snapshot(&graph, 1);
    let groups = GroupSet::new(vec![Group::new(
        "group1".to_string(),
        vec![NodeId(0), NodeId(1)],
    )]);

    let mut engine = SimulationEngine::new(
        graph,
        groups,
        initial_snapshot,
        TableScenario::new(vec![NodeId(0)], vec![10_000, 20_000, 30_000]),
    )
    .unwrap();

    let node_states = engine.current_snapshot().node_states();
    assert_eq!(0, node_states[0].demand());
    assert_eq!(0, node_states[1].demand());

    assert_eq!(0, node_states[0].served());
    assert_eq!(0, node_states[1].served());

    assert_eq!(0, node_states[0].backlog());
    assert_eq!(0, node_states[1].backlog());

    engine.step();

    let node_states = engine.current_snapshot().node_states();
    assert_eq!(10_000, node_states[0].demand());
    assert_eq!(0, node_states[1].demand());

    assert_eq!(10_000, node_states[0].served());
    assert_eq!(0, node_states[1].served());

    assert_eq!(0, node_states[0].backlog());
    assert_eq!(0, node_states[1].backlog());

    engine.step();

    let node_states = engine.current_snapshot().node_states();
    assert_eq!(20_000, node_states[0].demand());
    assert_eq!(10_000, node_states[1].demand());

    assert_eq!(20_000, node_states[0].served());
    assert_eq!(10_000, node_states[1].served());

    assert_eq!(0, node_states[0].backlog());
    assert_eq!(0, node_states[1].backlog());
}

#[test]
fn test_edge_multiplier_correctness() {
    let api = Node::new(NodeId(0), "api".to_string(), 100_000, 2000);
    let db = Node::new(NodeId(1), "db".to_string(), 60_000, 1000);
    let link = Edge::new(EdgeId(0), NodeId(0), NodeId(1), 1000);

    let graph = Graph::new(vec![api, db], vec![link]);
    let initial_snapshot = snapshot(&graph, 1);
    let groups = GroupSet::new(vec![Group::new(
        "group1".to_string(),
        vec![NodeId(0), NodeId(1)],
    )]);

    let mut engine = SimulationEngine::new(
        graph,
        groups,
        initial_snapshot,
        TableScenario::new(vec![NodeId(0)], vec![10_000, 20_000, 30_000]),
    )
    .unwrap();
    engine.step();
    engine.step();

    let node_states = engine.current_snapshot().node_states();
    assert_eq!(20_000, node_states[0].served());
    assert_eq!(20_000, node_states[1].served());
}

#[test]
fn test_disabled_edge_block_propagation() {
    let api = Node::new(NodeId(0), "api".to_string(), 100_000, 1000);
    let db = Node::new(NodeId(1), "db".to_string(), 60_000, 1000);
    let link = Edge::new(EdgeId(0), NodeId(0), NodeId(1), 2000);

    let graph = Graph::new(vec![api, db], vec![link]);
    let initial_snapshot = Snapshot::new(
        0,
        graph
            .nodes()
            .iter()
            .map(|_| NodeState::new(0, 0, 0, 1000))
            .collect(),
        graph
            .edges()
            .iter()
            .map(|_| EdgeState::new(false))
            .collect(),
        vec![CapacityModifier::new(); 1],
    );
    let groups = GroupSet::new(vec![Group::new(
        "group1".to_string(),
        vec![NodeId(0), NodeId(1)],
    )]);

    let mut engine = SimulationEngine::new(
        graph,
        groups,
        initial_snapshot,
        TableScenario::new(vec![NodeId(0)], vec![10_000, 20_000, 30_000]),
    )
    .unwrap();
    engine.step();
    let node_states = engine.current_snapshot().node_states();
    assert_eq!(10_000, node_states[0].served());
    assert_eq!(10_000, node_states[0].backlog());
    assert_eq!(0, node_states[1].served());
    engine.step();

    let node_states = engine.current_snapshot().node_states();
    assert_eq!(30_000, node_states[0].served());
    assert_eq!(30_000, node_states[0].backlog());
    assert_eq!(0, node_states[1].served());
}

#[test]
fn test_unhealthy_nodes_do_not_propagate_load() {
    let api = Node::new(NodeId(0), "api".to_string(), 100_000, 1000);
    let db = Node::new(NodeId(1), "db".to_string(), 60_000, 1000);
    let link = Edge::new(EdgeId(0), NodeId(0), NodeId(1), 2000);

    let graph = Graph::new(vec![api, db], vec![link]);
    let initial_snapshot = Snapshot::new(
        0,
        graph
            .nodes()
            .iter()
            .enumerate()
            .map(|(i, _)| NodeState::new(0, 0, 0, if i == 0 { 0 } else { 1000 }))
            .collect(),
        graph.edges().iter().map(|_| EdgeState::new(true)).collect(),
        vec![CapacityModifier::new(); 1],
    );
    let groups = GroupSet::new(vec![Group::new(
        "group1".to_string(),
        vec![NodeId(0), NodeId(1)],
    )]);

    let mut engine = SimulationEngine::new(
        graph,
        groups,
        initial_snapshot,
        TableScenario::new(vec![NodeId(0)], vec![10_000, 20_000, 30_000]),
    )
    .unwrap();

    let node_states = engine.current_snapshot().node_states();
    assert_eq!(0, node_states[0].demand());
    assert_eq!(0, node_states[1].demand());

    assert_eq!(0, node_states[0].served());
    assert_eq!(0, node_states[1].served());

    assert_eq!(0, node_states[0].backlog());
    assert_eq!(0, node_states[1].backlog());

    engine.step();

    let node_states = engine.current_snapshot().node_states();
    assert_eq!(10_000, node_states[0].demand());
    assert_eq!(0, node_states[1].demand());

    assert_eq!(0, node_states[0].served());
    assert_eq!(0, node_states[1].served());

    assert_eq!(0, node_states[0].backlog());
    assert_eq!(0, node_states[1].backlog());

    engine.step();

    let node_states = engine.current_snapshot().node_states();
    assert_eq!(20_000, node_states[0].demand());
    assert_eq!(0, node_states[1].demand());

    assert_eq!(0, node_states[0].served());
    assert_eq!(0, node_states[1].served());

    assert_eq!(0, node_states[0].backlog());
    assert_eq!(0, node_states[1].backlog());
}

#[test]
fn test_backlog_accumulates_when_over_capacity() {
    let api = Node::new(NodeId(0), "api".to_string(), 100_000, 1000);
    let db = Node::new(NodeId(1), "db".to_string(), 40_000, 1000);
    let link = Edge::new(EdgeId(0), NodeId(0), NodeId(1), 1000);

    let graph = Graph::new(vec![api, db], vec![link]);
    let initial_snapshot = snapshot(&graph, 1);
    let groups = GroupSet::new(vec![Group::new(
        "group1".to_string(),
        vec![NodeId(0), NodeId(1)],
    )]);

    let mut engine = SimulationEngine::new(
        graph,
        groups,
        initial_snapshot,
        TableScenario::new(vec![NodeId(0)], vec![50_000, 50_000, 50_000]),
    )
    .unwrap();

    let node_states = engine.current_snapshot().node_states();
    assert_eq!(0, node_states[0].demand());
    assert_eq!(0, node_states[1].demand());

    assert_eq!(0, node_states[0].served());
    assert_eq!(0, node_states[1].served());

    assert_eq!(0, node_states[0].backlog());
    assert_eq!(0, node_states[1].backlog());

    engine.step();

    let node_states = engine.current_snapshot().node_states();
    assert_eq!(50_000, node_states[0].demand());
    assert_eq!(0, node_states[1].demand());

    assert_eq!(50_000, node_states[0].served());
    assert_eq!(0, node_states[1].served());

    assert_eq!(0, node_states[0].backlog());
    assert_eq!(0, node_states[1].backlog());

    engine.step();

    let node_states = engine.current_snapshot().node_states();
    assert_eq!(50_000, node_states[0].demand());
    assert_eq!(50_000, node_states[1].demand());

    assert_eq!(50_000, node_states[0].served());
    assert_eq!(40_000, node_states[1].served());

    assert_eq!(0, node_states[0].backlog());
    assert_eq!(10_000, node_states[1].backlog());
}

#[test]
fn test_backlog_drains_when_below_capacity() {
    let api = Node::new(NodeId(0), "api".to_string(), 100_000, 1000);
    let db = Node::new(NodeId(1), "db".to_string(), 40_000, 1000);
    let link = Edge::new(EdgeId(0), NodeId(0), NodeId(1), 1000);

    let graph = Graph::new(vec![api, db], vec![link]);
    let initial_snapshot = snapshot(&graph, 1);
    let groups = GroupSet::new(vec![Group::new(
        "group1".to_string(),
        vec![NodeId(0), NodeId(1)],
    )]);

    let mut engine = SimulationEngine::new(
        graph,
        groups,
        initial_snapshot,
        TableScenario::new(vec![NodeId(0)], vec![50_000, 20_000, 10_000]),
    )
    .unwrap();

    let node_states = engine.current_snapshot().node_states();
    assert_eq!(0, node_states[0].demand());
    assert_eq!(0, node_states[1].demand());

    assert_eq!(0, node_states[0].served());
    assert_eq!(0, node_states[1].served());

    assert_eq!(0, node_states[0].backlog());
    assert_eq!(0, node_states[1].backlog());

    engine.step();

    let node_states = engine.current_snapshot().node_states();
    assert_eq!(50_000, node_states[0].demand());
    assert_eq!(0, node_states[1].demand());

    assert_eq!(50_000, node_states[0].served());
    assert_eq!(0, node_states[1].served());

    assert_eq!(0, node_states[0].backlog());
    assert_eq!(0, node_states[1].backlog());

    engine.step();

    let node_states = engine.current_snapshot().node_states();
    assert_eq!(20_000, node_states[0].demand());
    assert_eq!(50_000, node_states[1].demand());

    assert_eq!(20_000, node_states[0].served());
    assert_eq!(40_000, node_states[1].served());

    assert_eq!(0, node_states[0].backlog());
    assert_eq!(10_000, node_states[1].backlog());

    engine.step();

    let node_states = engine.current_snapshot().node_states();
    assert_eq!(10_000, node_states[0].demand());
    assert_eq!(20_000, node_states[1].demand());

    assert_eq!(10_000, node_states[0].served());
    assert_eq!(30_000, node_states[1].served());

    assert_eq!(0, node_states[0].backlog());
    assert_eq!(0, node_states[1].backlog());
}

#[test]
fn test_throttle() {
    let api = Node::new(NodeId(0), "api".to_string(), 100_000, 1000);
    let db = Node::new(NodeId(1), "db".to_string(), 40_000, 1000);
    let link = Edge::new(EdgeId(0), NodeId(0), NodeId(1), 1000);

    let graph = Graph::new(vec![api, db], vec![link]);
    let initial_snapshot = snapshot(&graph, 2);
    let groups = GroupSet::new(vec![
        Group::new("group1".to_string(), vec![NodeId(0)]),
        Group::new("group2".to_string(), vec![NodeId(1)]),
    ]);

    let mut engine = SimulationEngine::new(
        graph,
        groups,
        initial_snapshot,
        TableScenario::new(vec![NodeId(0)], vec![100_000, 80_000, 20_000]),
    )
    .unwrap();
    engine.try_throttle_group(0);

    let node_states = engine.current_snapshot().node_states();
    assert_eq!(0, node_states[0].demand());
    assert_eq!(0, node_states[1].demand());

    assert_eq!(0, node_states[0].served());
    assert_eq!(0, node_states[1].served());

    assert_eq!(0, node_states[0].backlog());
    assert_eq!(0, node_states[1].backlog());

    engine.step();

    let node_states = engine.current_snapshot().node_states();
    assert_eq!(100_000, node_states[0].demand());
    assert_eq!(0, node_states[1].demand());

    assert_eq!(50_000, node_states[0].served());
    assert_eq!(0, node_states[1].served());

    assert_eq!(50_000, node_states[0].backlog());
    assert_eq!(0, node_states[1].backlog());

    engine.step();

    let node_states = engine.current_snapshot().node_states();
    assert_eq!(80_000, node_states[0].demand());
    assert_eq!(50_000, node_states[1].demand());

    assert_eq!(50_000, node_states[0].served());
    assert_eq!(40_000, node_states[1].served());

    assert_eq!(80_000, node_states[0].backlog());
    assert_eq!(10_000, node_states[1].backlog());
}

#[test]
fn test_boost() {
    let api = Node::new(NodeId(0), "api".to_string(), 100_000, 1000);
    let db = Node::new(NodeId(1), "db".to_string(), 40_000, 1000);
    let link = Edge::new(EdgeId(0), NodeId(0), NodeId(1), 1000);

    let graph = Graph::new(vec![api, db], vec![link]);
    let initial_snapshot = snapshot(&graph, 2);
    let groups = GroupSet::new(vec![
        Group::new("group1".to_string(), vec![NodeId(0)]),
        Group::new("group2".to_string(), vec![NodeId(1)]),
    ]);

    let mut engine = SimulationEngine::new(
        graph,
        groups,
        initial_snapshot,
        TableScenario::new(vec![NodeId(0)], vec![200_000, 110_000, 50_000]),
    )
    .unwrap();
    engine.try_boost_group(0);

    let node_states = engine.current_snapshot().node_states();
    assert_eq!(0, node_states[0].demand());
    assert_eq!(0, node_states[1].demand());

    assert_eq!(0, node_states[0].served());
    assert_eq!(0, node_states[1].served());

    assert_eq!(0, node_states[0].backlog());
    assert_eq!(0, node_states[1].backlog());

    engine.step();

    let node_states = engine.current_snapshot().node_states();
    assert_eq!(200_000, node_states[0].demand());
    assert_eq!(0, node_states[1].demand());

    assert_eq!(150_000, node_states[0].served());
    assert_eq!(0, node_states[1].served());

    assert_eq!(50_000, node_states[0].backlog());
    assert_eq!(0, node_states[1].backlog());

    engine.step();

    let node_states = engine.current_snapshot().node_states();
    assert_eq!(110_000, node_states[0].demand());
    assert_eq!(150_000, node_states[1].demand());

    assert_eq!(150_000, node_states[0].served());
    assert_eq!(40_000, node_states[1].served());

    assert_eq!(10_000, node_states[0].backlog());
    assert_eq!(110_000, node_states[1].backlog());
}

#[test]
fn test_load_splitting() {
    let api1 = Node::new(NodeId(0), "api1".to_string(), 100_000, 1000);
    let api2 = Node::new(NodeId(1), "api2".to_string(), 100_000, 1000);
    let db1 = Node::new(NodeId(2), "db1".to_string(), 40_000, 1000);
    let db2 = Node::new(NodeId(3), "db2".to_string(), 40_000, 1000);
    let db3 = Node::new(NodeId(4), "db3".to_string(), 40_000, 1000);

    let link1 = Edge::new(EdgeId(0), NodeId(0), NodeId(2), 1000);
    let link2 = Edge::new(EdgeId(1), NodeId(0), NodeId(3), 3000);
    let link3 = Edge::new(EdgeId(2), NodeId(0), NodeId(4), 5000);

    let link4 = Edge::new(EdgeId(3), NodeId(1), NodeId(2), 1000);
    let link5 = Edge::new(EdgeId(4), NodeId(1), NodeId(3), 1000);

    let graph = Graph::new(
        vec![api1, api2, db1, db2, db3],
        vec![link1, link2, link3, link4, link5],
    );
    let initial_snapshot = Snapshot::new(
        0,
        graph
            .nodes()
            .iter()
            .enumerate()
            .map(|(i, _)| NodeState::new(0, 0, 0, if i == 1 || i == 3 { 0 } else { 1000 }))
            .collect(),
        graph
            .edges()
            .iter()
            .enumerate()
            .map(|(i, _)| EdgeState::new(i != 2))
            .collect(),
        vec![CapacityModifier::new(); 2],
    );
    let groups = GroupSet::new(vec![
        Group::new("group1".to_string(), vec![NodeId(0), NodeId(1)]),
        Group::new("group2".to_string(), vec![NodeId(2), NodeId(3), NodeId(4)]),
    ]);

    let mut engine = SimulationEngine::new(
        graph,
        groups,
        initial_snapshot,
        TableScenario::new(vec![NodeId(0), NodeId(1)], vec![10_000, 20_000, 30_000]),
    )
    .unwrap();

    let node_states = engine.current_snapshot().node_states();
    assert_eq!(0, node_states[0].demand());
    assert_eq!(0, node_states[1].demand());
    assert_eq!(0, node_states[2].demand());
    assert_eq!(0, node_states[3].demand());
    assert_eq!(0, node_states[4].demand());

    assert_eq!(0, node_states[0].served());
    assert_eq!(0, node_states[1].served());
    assert_eq!(0, node_states[2].served());
    assert_eq!(0, node_states[3].served());
    assert_eq!(0, node_states[4].served());

    engine.step();

    let node_states = engine.current_snapshot().node_states();
    assert_eq!(10_000, node_states[0].demand());
    assert_eq!(10_000, node_states[1].demand());
    assert_eq!(0, node_states[2].demand());
    assert_eq!(0, node_states[3].demand());
    assert_eq!(0, node_states[4].demand());

    assert_eq!(10_000, node_states[0].served());
    assert_eq!(0, node_states[1].served());
    assert_eq!(0, node_states[2].served());
    assert_eq!(0, node_states[3].served());
    assert_eq!(0, node_states[4].served());

    engine.step();

    let node_states = engine.current_snapshot().node_states();
    assert_eq!(20_000, node_states[0].demand());
    assert_eq!(20_000, node_states[1].demand());
    assert_eq!(2_500, node_states[2].demand());
    assert_eq!(7_500, node_states[3].demand());
    assert_eq!(0, node_states[4].demand());

    assert_eq!(20_000, node_states[0].served());
    assert_eq!(0, node_states[1].served());
    assert_eq!(2_500, node_states[2].served());
    assert_eq!(0, node_states[3].served());
    assert_eq!(0, node_states[4].served());
}
