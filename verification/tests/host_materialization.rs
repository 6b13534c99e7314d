use li_eskg::host::{HostNodeId, HostRelation, HostRelationRole};
use li_eskg::host_graph::{
    AuthoritativeHostGraph, HostGraphError, HostSchemaError, HostSchemaProfile, MaterializationOutcome,
};
use li_eskg::ids::{CommitVersion, DecisionId, EventId, MaterializationId, PhysicalNodeId, StateId};

fn profile() -> Result<HostSchemaProfile, HostSchemaError> {
    HostSchemaProfile::new([
        String::from("native:triggers"),
        String::from("native:leadsTo"),
        String::from("native:evolution"),
        String::from("native:contain"),
        String::from("native:occur"),
        String::from("native:influence"),
    ])
}

#[test]
fn host_graph_contains_no_observation_or_identity_partition() {
    let mut graph = AuthoritativeHostGraph::with_capacity(profile().unwrap(), 3, 1);
    graph.add_node(HostNodeId::Event(EventId(1))).unwrap();
    graph.add_node(HostNodeId::State(StateId(2))).unwrap();
    graph.add_node(HostNodeId::Physical(PhysicalNodeId(3))).unwrap();
    assert_eq!(graph.node_count(), 3);
}

#[test]
fn materialization_is_traceable_and_idempotent() {
    let mut graph = AuthoritativeHostGraph::with_capacity(profile().unwrap(), 2, 1);
    graph.add_node(HostNodeId::Event(EventId(1))).unwrap();
    graph.add_node(HostNodeId::Physical(PhysicalNodeId(2))).unwrap();
    let relation = HostRelation::Occur { event: EventId(1), physical: PhysicalNodeId(2) };
    let first = graph
        .materialize(relation, DecisionId(7), CommitVersion::new(3), MaterializationId(9))
        .unwrap();
    let replay = graph
        .materialize(relation, DecisionId(7), CommitVersion::new(3), MaterializationId(9))
        .unwrap();
    assert!(matches!(first, MaterializationOutcome::Applied(_)));
    assert!(matches!(replay, MaterializationOutcome::Replayed(_)));
    assert_eq!(graph.edge_count(), 1);
}

#[test]
fn missing_endpoint_leaves_host_graph_unchanged() {
    let mut graph = AuthoritativeHostGraph::with_capacity(profile().unwrap(), 1, 1);
    graph.add_node(HostNodeId::Event(EventId(1))).unwrap();
    let result = graph.materialize(
        HostRelation::Occur { event: EventId(1), physical: PhysicalNodeId(2) },
        DecisionId(7),
        CommitVersion::new(3),
        MaterializationId(9),
    );
    assert_eq!(result, Err(HostGraphError::MissingNode(HostNodeId::Physical(PhysicalNodeId(2)))));
    assert_eq!(graph.edge_count(), 0);
}

#[test]
fn duplicate_host_node_is_refused() {
    let mut graph = AuthoritativeHostGraph::with_capacity(profile().unwrap(), 2, 0);
    let node = HostNodeId::State(StateId(4));
    assert!(graph.add_node(node).is_ok());
    assert_eq!(graph.add_node(node), Err(HostGraphError::DuplicateNode(node)));
    assert!(graph.add_node(HostNodeId::Event(EventId(4))).is_ok());
    assert_eq!(graph.node_count(), 2);
}

#[test]
fn replay_returns_the_applied_edge_and_carries_lineage() {
    let mut graph = AuthoritativeHostGraph::with_capacity(profile().unwrap(), 2, 1);
    graph.add_node(HostNodeId::State(StateId(1))).unwrap();
    graph.add_node(HostNodeId::Event(EventId(2))).unwrap();
    let relation = HostRelation::Triggers { state: StateId(1), event: EventId(2) };
    let first = graph
        .materialize(relation, DecisionId(4), CommitVersion::new(8), MaterializationId(1))
        .unwrap();
    let index = match first {
        MaterializationOutcome::Applied(index) => index,
        MaterializationOutcome::Replayed(_) => panic!("first write must apply"),
    };
    assert_eq!(
        graph.materialize(relation, DecisionId(4), CommitVersion::new(8), MaterializationId(1)),
        Ok(MaterializationOutcome::Replayed(index))
    );
    let edge = graph.graph().edge_weights().next().unwrap();
    assert_eq!(edge.role, HostRelationRole::Triggers);
    assert_eq!(edge.predicate, "native:triggers");
    assert_eq!(edge.decision, DecisionId(4));
    assert_eq!(edge.commit, CommitVersion::new(8));
    assert_eq!(edge.materialization, MaterializationId(1));
}

#[test]
fn reused_materialization_identifier_with_other_content_collides() {
    let mut graph = AuthoritativeHostGraph::with_capacity(profile().unwrap(), 3, 2);
    graph.add_node(HostNodeId::Event(EventId(1))).unwrap();
    graph.add_node(HostNodeId::Physical(PhysicalNodeId(2))).unwrap();
    graph.add_node(HostNodeId::Physical(PhysicalNodeId(3))).unwrap();
    let relation = HostRelation::Occur { event: EventId(1), physical: PhysicalNodeId(2) };
    assert!(graph
        .materialize(relation, DecisionId(7), CommitVersion::new(3), MaterializationId(9))
        .is_ok());
    let other_target = HostRelation::Occur { event: EventId(1), physical: PhysicalNodeId(3) };
    assert_eq!(
        graph.materialize(other_target, DecisionId(7), CommitVersion::new(3), MaterializationId(9)),
        Err(HostGraphError::IdempotencyCollision)
    );
    assert_eq!(
        graph.materialize(relation, DecisionId(8), CommitVersion::new(3), MaterializationId(9)),
        Err(HostGraphError::IdempotencyCollision)
    );
    let influence = HostRelation::Influence { event: EventId(1), physical: PhysicalNodeId(2) };
    assert_eq!(
        graph.materialize(influence, DecisionId(7), CommitVersion::new(3), MaterializationId(9)),
        Err(HostGraphError::IdempotencyCollision)
    );
    assert_eq!(graph.edge_count(), 1);
}
