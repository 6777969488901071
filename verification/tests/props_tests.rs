use meshsim::analysis::aggregate_groups;
use meshsim::engine::{ConstructionError, SimulationEngine};
use meshsim::graph::{Edge, EdgeId, Graph, Node, NodeId};
use meshsim::groups::{Group, GroupHealth, GroupSet};
use meshsim::modifiers::CapacityModifier;
use meshsim::scenario::{BasicScenario, Scenario, TableScenario};
use meshsim::snapshot::Snapshot;
use meshsim::state::{EdgeState, NodeState};

fn two_node_graph(db_capacity: u64) -> Graph {
    let api = Node::new(NodeId(0), "api".to_string(), 100_000, 1000);
    let db = Node::new(NodeId(1), "db".to_string(), db_capacity, 1000);
    let link = Edge::new(EdgeId(0), NodeId(0), NodeId(1), 1000);
    Graph::new(vec![api, db], vec![link])
}

fn fresh_snapshot(graph: &Graph, group_cnt: usize) -> Snapshot {
    Snapshot::new(
        0,
        graph
            .nodes()
            .iter()
            .map(|_| NodeState::new(0, 0, 0, 1000))
            .collect(),
        graph.edges().iter().map(|_| EdgeState::new(true)).collect(),
        vec![CapacityModifier::new(); group_cnt],
    )
}

fn one_group(graph: &Graph) -> GroupSet {
    GroupSet::new(vec![Group::new(
        "group1".to_string(),
        graph.nodes().iter().map(|n| *n.id()).collect(),
    )])
}

#[test]
fn served_is_bounded_by_effective_capacity() {
    let graph = two_node_graph(40_000);
    let groups = one_group(&graph);
    let snapshot = fresh_snapshot(&graph, 1);
    let mut engine = SimulationEngine::new(
        graph,
        groups,
        snapshot,
        TableScenario::new(vec![NodeId(0)], vec![90_000, 90_000, 90_000, 90_000]),
    )
    .unwrap();
    for _ in 0..4 {
        engine.step();
        let states = engine.current_snapshot().node_states();
        assert!(states[0].served() <= 100_000);
        assert!(states[1].served() <= 40_000);
        assert!(states[0].health() <= 1000);
        assert!(states[1].health() <= 1000);
    }
}

#[test]
fn served_plus_backlog_equals_demand_plus_carryover() {
    let graph = two_node_graph(40_000);
    let groups = one_group(&graph);
    let snapshot = fresh_snapshot(&graph, 1);
    let mut engine = SimulationEngine::new(
        graph,
        groups,
        snapshot,
        TableScenario::new(vec![NodeId(0)], vec![50_000, 50_000, 50_000]),
    )
    .unwrap();
    engine.step();
    engine.step();
    // db received 50, serves 40, keeps 10
    let states = engine.current_snapshot().node_states();
    let prev_states = engine.previous_snapshot().node_states();
    assert_eq!(
        states[1].served() + states[1].backlog(),
        states[1].demand() + prev_states[1].backlog()
    );
    engine.step();
    // db: demand 50 plus carried 10, serves 40, keeps 20
    let states = engine.current_snapshot().node_states();
    assert_eq!(50_000, states[1].demand());
    assert_eq!(40_000, states[1].served());
    assert_eq!(20_000, states[1].backlog());
}

#[test]
fn edge_loads_sum_to_forwarded_work() {
    // A splits over enabled weights 1 and 3; the disabled weight-5 edge
    // carries nothing; the shares sum exactly to served * gain.
    let a = Node::new(NodeId(0), "a".to_string(), 100_000, 2000);
    let x = Node::new(NodeId(1), "x".to_string(), 40_000, 1000);
    let y = Node::new(NodeId(2), "y".to_string(), 40_000, 1000);
    let z = Node::new(NodeId(3), "z".to_string(), 40_000, 1000);
    let e0 = Edge::new(EdgeId(0), NodeId(0), NodeId(1), 1000);
    let e1 = Edge::new(EdgeId(1), NodeId(0), NodeId(2), 3000);
    let e2 = Edge::new(EdgeId(2), NodeId(0), NodeId(3), 5000);
    let graph = Graph::new(vec![a, x, y, z], vec![e0, e1, e2]);
    let snapshot = Snapshot::new(
        0,
        vec![
            NodeState::new(0, 20_000, 0, 1000),
            NodeState::new(0, 0, 0, 1000),
            NodeState::new(0, 0, 0, 1000),
            NodeState::new(0, 0, 0, 1000),
        ],
        vec![
            EdgeState::new(true),
            EdgeState::new(true),
            EdgeState::new(false),
        ],
        vec![CapacityModifier::new(); 1],
    );
    let l0 = snapshot.edge_load(EdgeId(0), &graph);
    let l1 = snapshot.edge_load(EdgeId(1), &graph);
    let l2 = snapshot.edge_load(EdgeId(2), &graph);
    assert_eq!(10_000, l0);
    assert_eq!(30_000, l1);
    assert_eq!(0, l2);
    // served 20 * gain 2 = 40 forwarded in total
    assert_eq!(40_000, l0 + l1 + l2);
}

#[test]
fn unhealthy_node_serves_and_keeps_nothing() {
    let graph = two_node_graph(40_000);
    let groups = one_group(&graph);
    let snapshot = Snapshot::new(
        0,
        vec![NodeState::new(0, 0, 0, 0), NodeState::new(0, 0, 0, 1000)],
        vec![EdgeState::new(true)],
        vec![CapacityModifier::new(); 1],
    );
    let mut engine = SimulationEngine::new(
        graph,
        groups,
        snapshot,
        TableScenario::new(vec![NodeId(0)], vec![30_000, 30_000]),
    )
    .unwrap();
    engine.step();
    let states = engine.current_snapshot().node_states();
    assert_eq!(30_000, states[0].demand());
    assert_eq!(0, states[0].served());
    assert_eq!(0, states[0].backlog());
}

#[test]
fn all_edges_disabled_accumulates_backlog() {
    let graph = two_node_graph(40_000);
    let groups = one_group(&graph);
    let snapshot = Snapshot::new(
        0,
        vec![
            NodeState::new(0, 0, 0, 1000),
            NodeState::new(0, 0, 0, 1000),
        ],
        vec![EdgeState::new(false)],
        vec![CapacityModifier::new(); 1],
    );
    let mut engine = SimulationEngine::new(
        graph,
        groups,
        snapshot,
        TableScenario::new(vec![NodeId(0)], vec![30_000, 30_000, 30_000]),
    )
    .unwrap();
    engine.step();
    let states = engine.current_snapshot().node_states();
    // nothing leaves the producer
    assert_eq!(0, states[1].demand());
    assert_eq!(30_000, states[0].backlog());
    engine.step();
    let states = engine.current_snapshot().node_states();
    assert_eq!(0, states[1].demand());
    // backlog = demand + previous backlog, even though work was served
    assert_eq!(60_000, states[0].backlog());
    assert_eq!(60_000, states[0].served());
}

#[test]
fn turn_increases_by_one_per_step() {
    let graph = two_node_graph(40_000);
    let groups = one_group(&graph);
    let snapshot = fresh_snapshot(&graph, 1);
    let mut engine = SimulationEngine::new(
        graph,
        groups,
        snapshot,
        TableScenario::new(vec![NodeId(0)], vec![10_000, 10_000, 10_000]),
    )
    .unwrap();
    assert_eq!(0, engine.current_snapshot().turn());
    engine.step();
    assert_eq!(1, engine.current_snapshot().turn());
    assert_eq!(0, engine.previous_snapshot().turn());
    engine.step();
    assert_eq!(2, engine.current_snapshot().turn());
    assert_eq!(1, engine.previous_snapshot().turn());
}

fn build_twin(loads: Vec<u64>) -> SimulationEngine<TableScenario> {
    let graph = two_node_graph(40_000);
    let groups = GroupSet::new(vec![
        Group::new("group1".to_string(), vec![NodeId(0)]),
        Group::new("group2".to_string(), vec![NodeId(1)]),
    ]);
    let snapshot = fresh_snapshot(&graph, 2);
    SimulationEngine::new(
        graph,
        groups,
        snapshot,
        TableScenario::new(vec![NodeId(0)], loads),
    )
    .unwrap()
}

#[test]
fn equal_inputs_and_actions_give_equal_runs() {
    let loads = vec![80_000, 120_000, 30_000, 50_000, 70_000];
    let mut left = build_twin(loads.clone());
    let mut right = build_twin(loads);
    for turn in 0..5 {
        if turn == 1 {
            left.try_throttle_group(0);
            right.try_throttle_group(0);
        }
        if turn == 3 {
            left.try_boost_group(1);
            right.try_boost_group(1);
        }
        left.step();
        right.step();
        let ls = left.current_snapshot().node_states();
        let rs = right.current_snapshot().node_states();
        for v in 0..ls.len() {
            assert_eq!(ls[v].demand(), rs[v].demand());
            assert_eq!(ls[v].served(), rs[v].served());
            assert_eq!(ls[v].backlog(), rs[v].backlog());
            assert_eq!(ls[v].health(), rs[v].health());
        }
        assert_eq!(
            left.current_snapshot().turn(),
            right.current_snapshot().turn()
        );
    }
}

#[test]
fn modifier_expires_after_lifetime_plus_application_turn() {
    let mut m = CapacityModifier::new();
    assert!(m.apply(500));
    assert!(m.is_active());
    assert!(m.is_just_applied());
    assert_eq!(500, m.factor());
    // the application turn does not count toward decay
    m.tick();
    assert!(m.is_active());
    assert!(!m.is_just_applied());
    m.tick();
    m.tick();
    assert!(m.is_active());
    m.tick();
    assert!(!m.is_active());
    assert_eq!(1000, m.factor());
    assert_eq!(0, m.remaining_turns());
}

#[test]
fn exhausted_modifier_reapplies_like_a_fresh_one() {
    let mut fresh = CapacityModifier::new();
    assert!(fresh.apply(500));

    let mut m = CapacityModifier::new();
    assert!(m.apply(500));
    for _ in 0..4 {
        m.tick();
    }
    assert!(!m.is_active());
    // a second application of the same factor restores the exact state a
    // single fresh application gives
    assert!(m.apply(500));
    assert_eq!(fresh.factor(), m.factor());
    assert_eq!(fresh.is_active(), m.is_active());
    assert_eq!(fresh.is_just_applied(), m.is_just_applied());
    assert_eq!(fresh.remaining_turns(), m.remaining_turns());
}

#[test]
fn reapply_while_active_is_refused() {
    let graph = two_node_graph(40_000);
    let groups = GroupSet::new(vec![
        Group::new("group1".to_string(), vec![NodeId(0)]),
        Group::new("group2".to_string(), vec![NodeId(1)]),
    ]);
    let snapshot = fresh_snapshot(&graph, 2);
    let mut engine = SimulationEngine::new(
        graph,
        groups,
        snapshot,
        TableScenario::new(vec![NodeId(0)], vec![10_000, 10_000, 10_000]),
    )
    .unwrap();
    engine.try_throttle_group(0);
    assert_eq!(0, engine.remaining_ops());
    engine.step();
    assert_eq!(1, engine.remaining_ops());
    // still active: boosting the same group is refused, the budget stays
    engine.try_boost_group(0);
    assert_eq!(1, engine.remaining_ops());
    assert_eq!(500, engine.current_snapshot().capacity_mod(0).factor());
}

#[test]
fn ops_budget_limits_actions_per_turn() {
    let graph = two_node_graph(40_000);
    let groups = GroupSet::new(vec![
        Group::new("group1".to_string(), vec![NodeId(0)]),
        Group::new("group2".to_string(), vec![NodeId(1)]),
    ]);
    let snapshot = fresh_snapshot(&graph, 2);
    let mut engine = SimulationEngine::new(
        graph,
        groups,
        snapshot,
        TableScenario::new(vec![NodeId(0)], vec![10_000, 10_000]),
    )
    .unwrap();
    assert_eq!(1, engine.remaining_ops());
    engine.try_throttle_group(0);
    // budget exhausted: the second action must not take effect
    engine.try_throttle_group(1);
    assert_eq!(500, engine.current_snapshot().capacity_mod(0).factor());
    assert_eq!(1000, engine.current_snapshot().capacity_mod(1).factor());
}

#[test]
fn empty_group_aggregates_to_zero() {
    let graph = two_node_graph(40_000);
    let groupset = GroupSet::new(vec![
        Group::new("group1".to_string(), vec![NodeId(0), NodeId(1)]),
        Group::new("empty".to_string(), vec![]),
    ]);
    let snapshot = Snapshot::new(
        0,
        vec![
            NodeState::new(0, 10_000, 0, 900),
            NodeState::new(0, 5_000, 0, 700),
        ],
        vec![EdgeState::new(true)],
        vec![CapacityModifier::new(); 2],
    );
    let summaries = aggregate_groups(&groupset, &snapshot, &snapshot, &graph);
    assert_eq!(0, summaries[1].avg_utilization());
    assert_eq!(0, summaries[1].raw_health());
    assert_eq!(0, summaries[1].healthy_nodes());
    assert_eq!(GroupHealth::Failed, *summaries[1].health());
    assert_eq!(0, summaries[1].node_count());
}

#[test]
fn overload_damages_health_proportionally() {
    let graph = two_node_graph(40_000);
    let groups = one_group(&graph);
    let snapshot = fresh_snapshot(&graph, 1);
    let mut engine = SimulationEngine::new(
        graph,
        groups,
        snapshot,
        TableScenario::new(vec![NodeId(0)], vec![80_000, 0, 0]),
    )
    .unwrap();
    engine.step();
    engine.step();
    // db: pressure 80/40 = 2.0, damage 0.1 * (2.0 - 1.0) = 0.1
    let states = engine.current_snapshot().node_states();
    assert_eq!(900, states[1].health());
}

#[test]
fn calm_turn_heals_one_step() {
    let graph = two_node_graph(40_000);
    let groups = one_group(&graph);
    let snapshot = Snapshot::new(
        0,
        vec![
            NodeState::new(0, 0, 0, 500),
            NodeState::new(0, 0, 0, 500),
        ],
        vec![EdgeState::new(true)],
        vec![CapacityModifier::new(); 1],
    );
    let mut engine = SimulationEngine::new(
        graph,
        groups,
        snapshot,
        TableScenario::new(vec![NodeId(0)], vec![10_000, 10_000]),
    )
    .unwrap();
    engine.step();
    // pressure below one, no backlog: health recovers by 0.01
    let states = engine.current_snapshot().node_states();
    assert_eq!(510, states[0].health());
    assert_eq!(510, states[1].health());
}

#[test]
fn zero_capacity_never_changes_health() {
    let a = Node::new(NodeId(0), "a".to_string(), 0, 1000);
    let graph = Graph::new(vec![a], vec![]);
    let groups = one_group(&graph);
    let snapshot = Snapshot::new(
        0,
        vec![NodeState::new(0, 0, 0, 500)],
        vec![],
        vec![CapacityModifier::new(); 1],
    );
    let mut engine = SimulationEngine::new(
        graph,
        groups,
        snapshot,
        TableScenario::new(vec![NodeId(0)], vec![10_000, 0]),
    )
    .unwrap();
    engine.step();
    engine.step();
    let states = engine.current_snapshot().node_states();
    assert_eq!(500, states[0].health());
}

#[test]
fn sink_node_drains_its_backlog() {
    // a node with no outgoing edges at all serves up to capacity and its
    // backlog falls to zero when demand is below capacity
    let a = Node::new(NodeId(0), "a".to_string(), 50_000, 1000);
    let graph = Graph::new(vec![a], vec![]);
    let groups = one_group(&graph);
    let snapshot = fresh_snapshot(&graph, 1);
    let mut engine = SimulationEngine::new(
        graph,
        groups,
        snapshot,
        TableScenario::new(vec![NodeId(0)], vec![70_000, 0, 0]),
    )
    .unwrap();
    engine.step();
    let states = engine.current_snapshot().node_states();
    assert_eq!(50_000, states[0].served());
    assert_eq!(20_000, states[0].backlog());
    engine.step();
    let states = engine.current_snapshot().node_states();
    assert_eq!(20_000, states[0].served());
    assert_eq!(0, states[0].backlog());
}

#[test]
fn construction_rejects_bad_inputs() {
    let graph = two_node_graph(40_000);
    let groups = one_group(&graph);
    let scenario = TableScenario::new(vec![NodeId(0)], vec![10_000]);

    // a node-state vector of the wrong length
    let bad = Snapshot::new(
        0,
        vec![NodeState::new(0, 0, 0, 1000)],
        vec![EdgeState::new(true)],
        vec![CapacityModifier::new(); 1],
    );
    let r = SimulationEngine::new(
        two_node_graph(40_000),
        one_group(&graph),
        bad,
        scenario,
    );
    assert_eq!(ConstructionError::LengthMismatch, r.err().unwrap());

    // groups that do not cover every node
    let r = SimulationEngine::new(
        two_node_graph(40_000),
        GroupSet::new(vec![
            Group::new("group1".to_string(), vec![NodeId(0)]),
            Group::new("group2".to_string(), vec![NodeId(0)]),
        ]),
        fresh_snapshot(&graph, 2),
        TableScenario::new(vec![NodeId(0)], vec![10_000]),
    );
    assert_eq!(ConstructionError::NotPartition, r.err().unwrap());

    // a health outside the unit range
    let bad_health = Snapshot::new(
        0,
        vec![
            NodeState::new(0, 0, 0, 1001),
            NodeState::new(0, 0, 0, 1000),
        ],
        vec![EdgeState::new(true)],
        vec![CapacityModifier::new(); 1],
    );
    let r = SimulationEngine::new(
        two_node_graph(40_000),
        one_group(&graph),
        bad_health,
        TableScenario::new(vec![NodeId(0)], vec![10_000]),
    );
    assert_eq!(ConstructionError::HealthOutOfRange, r.err().unwrap());

    // an inactive modifier claiming a non-baseline factor
    let bad_mod = CapacityModifier {
        factor: 700,
        active: false,
        just_applied: false,
        turns: 3,
        remaining: 0,
    };
    let bad_mods = Snapshot::new(
        0,
        vec![
            NodeState::new(0, 0, 0, 1000),
            NodeState::new(0, 0, 0, 1000),
        ],
        vec![EdgeState::new(true)],
        vec![bad_mod],
    );
    let r = SimulationEngine::new(
        two_node_graph(40_000),
        one_group(&graph),
        bad_mods,
        TableScenario::new(vec![NodeId(0)], vec![10_000]),
    );
    assert_eq!(ConstructionError::InvalidModifier, r.err().unwrap());

    // a scenario whose entry node the graph does not have
    let r = SimulationEngine::new(
        two_node_graph(40_000),
        one_group(&graph),
        fresh_snapshot(&graph, 1),
        TableScenario::new(vec![NodeId(5)], vec![10_000]),
    );
    assert_eq!(ConstructionError::InvalidEntryNode, r.err().unwrap());
}

#[test]
fn built_in_scenario_constructs_a_running_engine() {
    let (graph, groups, snapshot, scenario) = BasicScenario::build();
    assert_eq!(12, graph.node_count());
    assert_eq!(5, groups.groups().len());
    let mut engine = SimulationEngine::new(graph, groups, snapshot, scenario).unwrap();
    engine.step();
    let states = engine.current_snapshot().node_states();
    // both ingress nodes receive the base load on the first turn
    assert_eq!(20_000, states[0].demand());
    assert_eq!(20_000, states[1].demand());
}

#[test]
fn basic_scenario_ramps_and_caps() {
    let scenario = BasicScenario::new(vec![NodeId(0)], 20_000, 5_000, 400_000);
    assert_eq!(20_000, scenario.load(NodeId(0), 0));
    assert_eq!(35_000, scenario.load(NodeId(0), 3));
    assert_eq!(400_000, scenario.load(NodeId(0), 100));
    assert_eq!(0, scenario.load(NodeId(1), 3));
}

#[test]
fn table_scenario_is_silent_beyond_its_table() {
    let scenario = TableScenario::new(vec![NodeId(0)], vec![10_000, 20_000]);
    assert_eq!(10_000, scenario.load(NodeId(0), 0));
    assert_eq!(20_000, scenario.load(NodeId(0), 1));
    assert_eq!(0, scenario.load(NodeId(0), 2));
    assert_eq!(0, scenario.load(NodeId(1), 0));
    assert_eq!(1, scenario.ops_per_turn());
}

#[test]
fn health_labels_read_as_expected() {
    assert_eq!("Ok", GroupHealth::Healthy.label());
    assert_eq!("Degraded", GroupHealth::Degraded.label());
    assert_eq!("Critical", GroupHealth::Critical.label());
    assert_eq!("Failed", GroupHealth::Failed.label());
}

#[test]
fn previous_snapshot_aliases_current_before_first_step() {
    let graph = two_node_graph(40_000);
    let groups = one_group(&graph);
    let snapshot = fresh_snapshot(&graph, 1);
    let engine = SimulationEngine::new(
        graph,
        groups,
        snapshot,
        TableScenario::new(vec![NodeId(0)], vec![10_000]),
    )
    .unwrap();
    assert_eq!(
        engine.current_snapshot().turn(),
        engine.previous_snapshot().turn()
    );
    let curr = engine.current_snapshot().node_states();
    let prev = engine.previous_snapshot().node_states();
    for v in 0..curr.len() {
        assert_eq!(curr[v].demand(), prev[v].demand());
        assert_eq!(curr[v].health(), prev[v].health());
    }
}

#[test]
fn work_sums_saturate_at_the_largest_quantity() {
    // demand near the representable maximum saturates instead of wrapping
    let a = Node::new(NodeId(0), "a".to_string(), u64::MAX, 1000);
    let graph = Graph::new(vec![a], vec![]);
    let groups = one_group(&graph);
    let snapshot = fresh_snapshot(&graph, 1);
    let mut engine = SimulationEngine::new(
        graph,
        groups,
        snapshot,
        TableScenario::new(vec![NodeId(0), NodeId(0)], vec![u64::MAX, u64::MAX]),
    )
    .unwrap();
    engine.step();
    let states = engine.current_snapshot().node_states();
    // the entry node is listed twice, so the injected load saturates
    assert_eq!(u64::MAX, states[0].demand());
    engine.step();
    let states = engine.current_snapshot().node_states();
    assert_eq!(u64::MAX, states[0].demand());
    assert!(states[0].backlog() <= u64::MAX);
}
