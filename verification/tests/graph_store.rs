use li_eskg::graph::{GraphError, KnowledgeGraph, MergeOutcome, PetGraphStore};
use li_eskg::graph_ontology::NodeData;
use li_eskg::ids::{EventId, IdentityId, ObservationId, StateId};
use li_eskg::invariants::{
    CausalAcyclicityInvariant, IdentityUniquenessInvariant, Invariant, InvariantViolation,
    ObservationPartitionInvariant,
};
use li_eskg::observation::{Modality, Observation, Timestamp};
use li_eskg::ontology::Vertex;
use li_eskg::operations::{GraphOperation, IdentityAssignment};
use li_eskg::projection::{EventStateNode, EventStateProjection, GraphProjection};
use petgraph::visit::{EdgeRef, IntoEdgeReferences};
use li_eskg::queries::{IdentitySetQuery, NeighborhoodQuery, SupportSetQuery};
use li_eskg::relation::Relation;

fn observation(id: u64) -> Observation<()> {
    Observation::new(ObservationId(id), Modality(1), Timestamp::from_secs(id as i64), ())
}

#[test]
fn test_duplicate_vertex_rejection() {
    let mut store = PetGraphStore::<(), (), ()>::new();
    assert!(store.apply_batch(vec![GraphOperation::CommitObservation(observation(1))]).is_ok());
    let result = store.apply_batch(vec![GraphOperation::CommitObservation(observation(1))]);
    assert_eq!(
        result,
        Err(GraphError::DuplicateVertex { vertex: Vertex::Observation(ObservationId(1)) })
    );
}

#[test]
fn test_invalid_relation_transition() {
    let mut store = PetGraphStore::<(), (), ()>::new();
    let setup = vec![
        GraphOperation::CommitObservation(observation(1)),
        GraphOperation::CommitIdentity { id: IdentityId(1), created_at: Timestamp::from_secs(100) },
    ];
    assert!(store.apply_batch(setup).is_ok());
    let result = store.apply_batch(vec![GraphOperation::CommitRelation {
        source: Vertex::Identity(IdentityId(1)),
        relation: Relation::Supports,
        target: Vertex::Observation(ObservationId(1)),
        created_at: Timestamp::from_secs(101),
    }]);
    assert_eq!(
        result,
        Err(GraphError::InvalidRelationTransition {
            relation: Relation::Supports,
            source: Vertex::Identity(IdentityId(1)),
            target: Vertex::Observation(ObservationId(1)),
        })
    );
}

#[test]
fn test_missing_vertex_in_relation() {
    let mut store = PetGraphStore::<(), (), ()>::new();
    let result = store.apply_batch(vec![GraphOperation::CommitRelation {
        source: Vertex::Observation(ObservationId(99)),
        relation: Relation::Supports,
        target: Vertex::Identity(IdentityId(1)),
        created_at: Timestamp::from_secs(100),
    }]);
    assert_eq!(
        result,
        Err(GraphError::VertexNotFound { vertex: Vertex::Observation(ObservationId(99)) })
    );
}

#[test]
fn test_query_support_set_non_existent_identity() {
    let store = PetGraphStore::<(), (), ()>::new();
    let result = KnowledgeGraph::query_support_set(&store, IdentityId(404));
    assert_eq!(
        result,
        Err(GraphError::VertexNotFound { vertex: Vertex::Identity(IdentityId(404)) })
    );
}

#[test]
fn test_query_support_set_empty() {
    let mut store = PetGraphStore::<(), (), ()>::new();
    let op = GraphOperation::CommitIdentity { id: IdentityId(1), created_at: Timestamp::from_secs(100) };
    assert!(store.apply_batch(vec![op]).is_ok());
    assert_eq!(
        KnowledgeGraph::query_support_set(&store, IdentityId(1)).map(|support| support.is_empty()),
        Ok(true)
    );
}

#[test]
fn test_all_identities_filtering() {
    let mut store = PetGraphStore::<(), (), ()>::new();
    let ops = vec![
        GraphOperation::CommitIdentity { id: IdentityId(10), created_at: Timestamp::from_secs(100) },
        GraphOperation::CommitEvent { id: EventId(1), timestamp: Timestamp::from_secs(101), payload: () },
        GraphOperation::CommitState { id: StateId(1), timestamp: Timestamp::from_secs(102), payload: () },
        GraphOperation::CommitIdentity { id: IdentityId(20), created_at: Timestamp::from_secs(103) },
    ];
    assert!(store.apply_batch(ops).is_ok());
    let identities = KnowledgeGraph::all_identities(&store).map(|mut identities| {
        identities.sort_unstable();
        identities
    });
    assert_eq!(identities, Ok(vec![IdentityId(10), IdentityId(20)]));
}

#[test]
fn batch_failure_rolls_back_all_prior_mutations() {
    let mut store = PetGraphStore::<(), (), ()>::new();
    let result = store.apply_batch(vec![
        GraphOperation::CommitObservation(observation(1)),
        GraphOperation::CommitRelation {
            source: Vertex::Observation(ObservationId(1)),
            relation: Relation::Supports,
            target: Vertex::Identity(IdentityId(99)),
            created_at: Timestamp::from_secs(100),
        },
    ]);
    assert_eq!(result, Err(GraphError::VertexNotFound { vertex: Vertex::Identity(IdentityId(99)) }));
    assert_eq!(store.node_count(), 0);
    assert_eq!(store.edge_count(), 0);
    assert!(!store.contains_vertex(Vertex::Observation(ObservationId(1))));
}

#[test]
fn rolled_back_batch_leaves_earlier_state_intact() {
    let mut store = PetGraphStore::<(), (), ()>::new();
    assert!(store
        .apply_batch(vec![
            GraphOperation::CommitIdentity { id: IdentityId(1), created_at: Timestamp::from_secs(1) },
            GraphOperation::CommitObservation(observation(5)),
        ])
        .is_ok());
    let result = store.apply_batch(vec![
        GraphOperation::CommitObservation(observation(6)),
        GraphOperation::CommitRelation {
            source: Vertex::Observation(ObservationId(6)),
            relation: Relation::Supports,
            target: Vertex::Identity(IdentityId(1)),
            created_at: Timestamp::from_secs(2),
        },
        GraphOperation::CommitIdentity { id: IdentityId(1), created_at: Timestamp::from_secs(3) },
    ]);
    assert_eq!(result, Err(GraphError::DuplicateVertex { vertex: Vertex::Identity(IdentityId(1)) }));
    assert_eq!(store.node_count(), 2);
    assert_eq!(store.edge_count(), 0);
    assert!(!store.contains_vertex(Vertex::Observation(ObservationId(6))));
    assert!(store.contains_vertex(Vertex::Observation(ObservationId(5))));
    assert!(store
        .apply_batch(vec![GraphOperation::CommitObservation(observation(6))])
        .is_ok());
    assert_eq!(store.node_count(), 3);
}

#[test]
fn materialization_rolls_back_observation_when_target_is_missing() {
    let mut store = PetGraphStore::<(), (), ()>::new();
    let result = store.materialize_observation(observation(8), IdentityAssignment::Existing(IdentityId(404)));
    assert_eq!(result, Err(GraphError::VertexNotFound { vertex: Vertex::Identity(IdentityId(404)) }));
    assert_eq!(store.node_count(), 0);
}

#[test]
fn materialization_creates_identity_and_unique_support_atomically() {
    let mut store = PetGraphStore::<(), (), ()>::with_capacity(2, 1);
    let assigned = store.materialize_observation(observation(8), IdentityAssignment::New(IdentityId(12)));
    assert_eq!(assigned, Ok(IdentityId(12)));
    assert_eq!(store.node_count(), 2);
    assert_eq!(store.edge_count(), 1);
    let support_ids = store
        .supporting_observations(IdentityId(12))
        .map(|support| support.iter().map(|observation| observation.id).collect::<Vec<_>>());
    assert_eq!(support_ids, Ok(vec![ObservationId(8)]));
}

#[test]
fn second_support_owner_is_rejected_without_mutation() {
    let mut store = PetGraphStore::<(), (), ()>::new();
    let setup = vec![
        GraphOperation::CommitObservation(observation(1)),
        GraphOperation::CommitIdentity { id: IdentityId(1), created_at: Timestamp::from_secs(100) },
        GraphOperation::CommitIdentity { id: IdentityId(2), created_at: Timestamp::from_secs(100) },
        GraphOperation::CommitRelation {
            source: Vertex::Observation(ObservationId(1)),
            relation: Relation::Supports,
            target: Vertex::Identity(IdentityId(1)),
            created_at: Timestamp::from_secs(100),
        },
    ];
    assert!(store.apply_batch(setup).is_ok());
    let result = store.apply_batch(vec![GraphOperation::CommitRelation {
        source: Vertex::Observation(ObservationId(1)),
        relation: Relation::Supports,
        target: Vertex::Identity(IdentityId(2)),
        created_at: Timestamp::from_secs(101),
    }]);
    assert_eq!(
        result,
        Err(GraphError::ObservationAlreadyAssigned {
            observation: ObservationId(1),
            identity: IdentityId(1),
        })
    );
    assert_eq!(store.edge_count(), 1);
}

#[test]
fn duplicate_semantic_relation_is_rejected_without_mutation() {
    let timestamp = Timestamp::from_secs(100);
    let source = Vertex::Identity(IdentityId(1));
    let target = Vertex::Identity(IdentityId(2));
    let mut store = PetGraphStore::<(), (), ()>::new();
    assert!(store
        .apply_batch(vec![
            GraphOperation::CommitIdentity { id: IdentityId(1), created_at: timestamp },
            GraphOperation::CommitIdentity { id: IdentityId(2), created_at: timestamp },
            GraphOperation::CommitRelation {
                source,
                relation: Relation::AssociatedWith,
                target,
                created_at: timestamp,
            },
        ])
        .is_ok());
    let result = store.apply_batch(vec![GraphOperation::CommitRelation {
        source,
        relation: Relation::AssociatedWith,
        target,
        created_at: Timestamp::from_secs(101),
    }]);
    assert_eq!(
        result,
        Err(GraphError::DuplicateRelation { origin: source, relation: Relation::AssociatedWith, target })
    );
    assert_eq!(store.edge_count(), 1);
}

#[test]
fn merge_rewires_support_and_coalesces_existing_relations() {
    let mut store = PetGraphStore::<(), (), ()>::new();
    let target = IdentityId(1);
    let duplicate = IdentityId(2);
    let related = IdentityId(3);
    let origin = IdentityId(4);
    let setup = vec![
        GraphOperation::CommitIdentity { id: target, created_at: Timestamp::from_secs(1) },
        GraphOperation::CommitIdentity { id: duplicate, created_at: Timestamp::from_secs(1) },
        GraphOperation::CommitIdentity { id: related, created_at: Timestamp::from_secs(1) },
        GraphOperation::CommitIdentity { id: origin, created_at: Timestamp::from_secs(1) },
        GraphOperation::CommitObservation(Observation::new(
            ObservationId(10),
            Modality(1),
            Timestamp::from_secs(1),
            (),
        )),
        GraphOperation::CommitObservation(Observation::new(
            ObservationId(20),
            Modality(1),
            Timestamp::from_secs(2),
            (),
        )),
        GraphOperation::CommitRelation {
            source: Vertex::Observation(ObservationId(10)),
            relation: Relation::Supports,
            target: Vertex::Identity(target),
            created_at: Timestamp::from_secs(1),
        },
        GraphOperation::CommitRelation {
            source: Vertex::Observation(ObservationId(20)),
            relation: Relation::Supports,
            target: Vertex::Identity(duplicate),
            created_at: Timestamp::from_secs(2),
        },
        GraphOperation::CommitRelation {
            source: Vertex::Identity(target),
            relation: Relation::AssociatedWith,
            target: Vertex::Identity(related),
            created_at: Timestamp::from_secs(2),
        },
        GraphOperation::CommitRelation {
            source: Vertex::Identity(duplicate),
            relation: Relation::AssociatedWith,
            target: Vertex::Identity(related),
            created_at: Timestamp::from_secs(3),
        },
        GraphOperation::CommitRelation {
            source: Vertex::Identity(origin),
            relation: Relation::AssociatedWith,
            target: Vertex::Identity(duplicate),
            created_at: Timestamp::from_secs(3),
        },
        GraphOperation::CommitRelation {
            source: Vertex::Identity(target),
            relation: Relation::Refines,
            target: Vertex::Identity(duplicate),
            created_at: Timestamp::from_secs(3),
        },
        GraphOperation::CommitRelation {
            source: Vertex::Identity(duplicate),
            relation: Relation::AssociatedWith,
            target: Vertex::Identity(target),
            created_at: Timestamp::from_secs(3),
        },
    ];
    assert!(store.apply_batch(setup).is_ok());

    let outcome = store.merge_identities(target, duplicate);
    assert_eq!(outcome, Ok(MergeOutcome { rewired_relations: 2, coalesced_relations: 1 }));
    assert!(!store.contains_vertex(Vertex::Identity(duplicate)));
    let support_ids = store.supporting_observations(target).map(|support| {
        let mut ids: Vec<_> = support.iter().map(|observation| observation.id).collect();
        ids.sort_unstable();
        ids
    });
    assert_eq!(support_ids, Ok(vec![ObservationId(10), ObservationId(20)]));
    assert_eq!(store.edge_count(), 4);
    assert_eq!(
        store.out_relations(Vertex::Identity(origin)),
        vec![(Vertex::Identity(origin), Relation::AssociatedWith, Vertex::Identity(target))]
    );
}

#[test]
fn merge_rejects_self_and_missing_identities() {
    let mut store = PetGraphStore::<(), (), ()>::new();
    assert_eq!(
        store.merge_identities(IdentityId(1), IdentityId(1)),
        Err(GraphError::SelfIdentityMerge { identity: IdentityId(1) })
    );
    assert_eq!(
        store.merge_identities(IdentityId(1), IdentityId(2)),
        Err(GraphError::VertexNotFound { vertex: Vertex::Identity(IdentityId(1)) })
    );
}

#[test]
fn merge_must_be_the_only_operation_in_a_batch() {
    let mut store = PetGraphStore::<(), (), ()>::new();
    let result = store.apply_batch(vec![
        GraphOperation::CommitIdentity { id: IdentityId(1), created_at: Timestamp::from_secs(1) },
        GraphOperation::MergeIdentities { target: IdentityId(1), duplicate: IdentityId(2) },
    ]);
    assert_eq!(result, Err(GraphError::MergeOperationMustBeIsolated));
    assert_eq!(store.node_count(), 0);
}

#[test]
fn isolated_merge_batch_runs_the_merge() {
    let mut store = PetGraphStore::<(), (), ()>::new();
    assert!(store
        .apply_batch(vec![
            GraphOperation::CommitIdentity { id: IdentityId(1), created_at: Timestamp::from_secs(1) },
            GraphOperation::CommitIdentity { id: IdentityId(2), created_at: Timestamp::from_secs(1) },
        ])
        .is_ok());
    assert_eq!(
        store.apply_batch(vec![GraphOperation::MergeIdentities {
            target: IdentityId(1),
            duplicate: IdentityId(2),
        }]),
        Ok(())
    );
    assert_eq!(store.node_count(), 1);
    assert_eq!(store.vertex_type(Vertex::Identity(IdentityId(2))), Ok(None));
    assert_eq!(
        store.vertex_type(Vertex::Identity(IdentityId(1))),
        Ok(Some(Vertex::Identity(IdentityId(1))))
    );
}

fn two_events(store: &mut PetGraphStore<(), (), ()>) {
    let operations = vec![
        GraphOperation::CommitEvent { id: EventId(1), timestamp: Timestamp::unix_epoch(), payload: () },
        GraphOperation::CommitEvent { id: EventId(2), timestamp: Timestamp::unix_epoch(), payload: () },
        GraphOperation::CommitRelation {
            source: Vertex::Event(EventId(1)),
            relation: Relation::Influence,
            target: Vertex::Event(EventId(2)),
            created_at: Timestamp::unix_epoch(),
        },
    ];
    assert!(store.apply_batch(operations).is_ok());
}

#[test]
fn accepts_valid_causal_dag() {
    let mut store = PetGraphStore::<(), (), ()>::new();
    two_events(&mut store);
    let invariant = CausalAcyclicityInvariant;
    assert_eq!(invariant.validate(&store), Ok(()));
    assert!(invariant.verify(&store));
}

#[test]
fn reports_causal_cycle() {
    let mut store = PetGraphStore::<(), (), ()>::new();
    two_events(&mut store);
    assert!(store
        .apply_batch(vec![GraphOperation::CommitRelation {
            source: Vertex::Event(EventId(2)),
            relation: Relation::Influence,
            target: Vertex::Event(EventId(1)),
            created_at: Timestamp::unix_epoch(),
        }])
        .is_ok());
    let invariant = CausalAcyclicityInvariant;
    assert_eq!(invariant.validate(&store), Err(InvariantViolation::CausalCycle));
    assert!(!invariant.verify(&store));
}

#[test]
fn ignores_cycles_composed_only_of_li_relations() {
    let mut store = PetGraphStore::<(), (), ()>::new();
    let timestamp = Timestamp::from_secs(1);
    let operations = vec![
        GraphOperation::CommitIdentity { id: IdentityId(1), created_at: timestamp },
        GraphOperation::CommitIdentity { id: IdentityId(2), created_at: timestamp },
        GraphOperation::CommitRelation {
            source: Vertex::Identity(IdentityId(1)),
            relation: Relation::AssociatedWith,
            target: Vertex::Identity(IdentityId(2)),
            created_at: timestamp,
        },
        GraphOperation::CommitRelation {
            source: Vertex::Identity(IdentityId(2)),
            relation: Relation::AssociatedWith,
            target: Vertex::Identity(IdentityId(1)),
            created_at: timestamp,
        },
    ];
    assert!(store.apply_batch(operations).is_ok());
    assert_eq!(CausalAcyclicityInvariant.validate(&store), Ok(()));
}

#[test]
fn validates_deep_causal_chain_without_using_call_stack() {
    let event_count: u64 = 50_000;
    let timestamp = Timestamp::unix_epoch();
    let mut store = PetGraphStore::<(), (), ()>::with_capacity(50_000, 50_000);
    for raw_id in 0..event_count {
        let mut batch = vec![GraphOperation::CommitEvent { id: EventId(raw_id), timestamp, payload: () }];
        if raw_id > 0 {
            batch.push(GraphOperation::CommitRelation {
                source: Vertex::Event(EventId(raw_id - 1)),
                relation: Relation::Influence,
                target: Vertex::Event(EventId(raw_id)),
                created_at: timestamp,
            });
        }
        assert!(store.apply_batch(batch).is_ok());
    }
    assert_eq!(CausalAcyclicityInvariant.validate(&store), Ok(()));
}

#[test]
fn accepts_empty_graph() {
    let store = PetGraphStore::<(), (), ()>::new();
    assert_eq!(ObservationPartitionInvariant.validate(&store), Ok(()));
}

#[test]
fn accepts_disjoint_complete_support_sets() {
    let timestamp = Timestamp::from_secs(10);
    let mut store = PetGraphStore::<(), (), ()>::new();
    let operations = vec![
        GraphOperation::CommitObservation(observation(1)),
        GraphOperation::CommitObservation(observation(2)),
        GraphOperation::CommitIdentity { id: IdentityId(1), created_at: timestamp },
        GraphOperation::CommitIdentity { id: IdentityId(2), created_at: timestamp },
        GraphOperation::CommitRelation {
            source: Vertex::Observation(ObservationId(1)),
            relation: Relation::Supports,
            target: Vertex::Identity(IdentityId(1)),
            created_at: timestamp,
        },
        GraphOperation::CommitRelation {
            source: Vertex::Observation(ObservationId(2)),
            relation: Relation::Supports,
            target: Vertex::Identity(IdentityId(2)),
            created_at: timestamp,
        },
    ];
    assert!(store.apply_batch(operations).is_ok());
    let invariant = ObservationPartitionInvariant;
    assert_eq!(invariant.validate(&store), Ok(()));
    assert!(invariant.verify(&store));
}

#[test]
fn reports_observation_without_support() {
    let mut store = PetGraphStore::<(), (), ()>::new();
    assert!(store.apply_batch(vec![GraphOperation::CommitObservation(observation(1))]).is_ok());
    assert_eq!(
        ObservationPartitionInvariant.validate(&store),
        Err(InvariantViolation::ObservationSupportCardinality { observation: ObservationId(1), actual: 0 })
    );
}

#[test]
fn reports_identity_without_support() {
    let mut store = PetGraphStore::<(), (), ()>::new();
    assert!(store
        .apply_batch(vec![GraphOperation::CommitIdentity {
            id: IdentityId(1),
            created_at: Timestamp::from_secs(1),
        }])
        .is_ok());
    assert_eq!(
        ObservationPartitionInvariant.validate(&store),
        Err(InvariantViolation::IdentitySupportCardinality { identity: IdentityId(1), actual: 0 })
    );
}

#[test]
fn accepts_canonical_identity_index() {
    let mut store = PetGraphStore::<(), (), ()>::new();
    let operations = vec![
        GraphOperation::CommitIdentity { id: IdentityId(1), created_at: Timestamp::from_secs(1) },
        GraphOperation::CommitIdentity { id: IdentityId(2), created_at: Timestamp::from_secs(2) },
    ];
    assert!(store.apply_batch(operations).is_ok());
    let invariant = IdentityUniquenessInvariant;
    assert_eq!(invariant.validate(&store), Ok(()));
    assert!(invariant.verify(&store));
}

#[test]
fn simultaneous_same_modality_observations_do_not_imply_identity_collision() {
    let timestamp = Timestamp::from_secs(1);
    let mut store = PetGraphStore::<(), (), ()>::new();
    let operations = vec![
        GraphOperation::CommitObservation(Observation::new(ObservationId(1), Modality(1), timestamp, ())),
        GraphOperation::CommitObservation(Observation::new(ObservationId(2), Modality(1), timestamp, ())),
        GraphOperation::CommitIdentity { id: IdentityId(1), created_at: timestamp },
        GraphOperation::CommitIdentity { id: IdentityId(2), created_at: timestamp },
        GraphOperation::CommitRelation {
            source: Vertex::Observation(ObservationId(1)),
            relation: Relation::Supports,
            target: Vertex::Identity(IdentityId(1)),
            created_at: timestamp,
        },
        GraphOperation::CommitRelation {
            source: Vertex::Observation(ObservationId(2)),
            relation: Relation::Supports,
            target: Vertex::Identity(IdentityId(2)),
            created_at: timestamp,
        },
    ];
    assert!(store.apply_batch(operations).is_ok());
    assert_eq!(IdentityUniquenessInvariant.validate(&store), Ok(()));
}

#[test]
fn test_zero_copy_identity_set_query_empty() {
    let store = PetGraphStore::<(), (), ()>::new();
    assert_eq!(IdentitySetQuery::all_identities(&store).len(), 0);
}

#[test]
fn test_zero_copy_identity_set_query_populated() {
    let mut store = PetGraphStore::<(), (), ()>::new();
    let ops = vec![
        GraphOperation::CommitIdentity { id: IdentityId(1), created_at: Timestamp::from_secs(100) },
        GraphOperation::CommitIdentity { id: IdentityId(2), created_at: Timestamp::from_secs(101) },
    ];
    assert!(store.apply_batch(ops).is_ok());
    let mut identities = IdentitySetQuery::all_identities(&store);
    identities.sort_unstable();
    assert_eq!(identities, vec![IdentityId(1), IdentityId(2)]);
}

#[test]
fn test_zero_copy_support_set_query_unregistered_identity() {
    let store = PetGraphStore::<(), (), ()>::new();
    assert_eq!(SupportSetQuery::query_support_set(&store, IdentityId(999)).len(), 0);
}

#[test]
fn test_zero_copy_support_set_query_multiple_observations() {
    let mut store = PetGraphStore::<(), (), ()>::new();
    let ops = vec![
        GraphOperation::CommitObservation(Observation::new(ObservationId(1), Modality(1), Timestamp::from_secs(100), ())),
        GraphOperation::CommitObservation(Observation::new(ObservationId(2), Modality(1), Timestamp::from_secs(101), ())),
        GraphOperation::CommitIdentity { id: IdentityId(1), created_at: Timestamp::from_secs(102) },
        GraphOperation::CommitRelation {
            source: Vertex::Observation(ObservationId(1)),
            relation: Relation::Supports,
            target: Vertex::Identity(IdentityId(1)),
            created_at: Timestamp::from_secs(103),
        },
        GraphOperation::CommitRelation {
            source: Vertex::Observation(ObservationId(2)),
            relation: Relation::Supports,
            target: Vertex::Identity(IdentityId(1)),
            created_at: Timestamp::from_secs(104),
        },
    ];
    assert!(store.apply_batch(ops).is_ok());
    let support = SupportSetQuery::query_support_set(&store, IdentityId(1));
    assert_eq!(support.len(), 2);
    let mut obs_ids: Vec<_> = support.iter().map(|o| o.id).collect();
    obs_ids.sort();
    assert_eq!(obs_ids, vec![ObservationId(1), ObservationId(2)]);
}

#[test]
fn test_zero_copy_neighborhood_query_reports_outgoing_relations() {
    let timestamp = Timestamp::from_secs(100);
    let mut store = PetGraphStore::<(), (), ()>::new();
    let operations = vec![
        GraphOperation::CommitIdentity { id: IdentityId(1), created_at: timestamp },
        GraphOperation::CommitIdentity { id: IdentityId(2), created_at: timestamp },
        GraphOperation::CommitRelation {
            source: Vertex::Identity(IdentityId(1)),
            relation: Relation::AssociatedWith,
            target: Vertex::Identity(IdentityId(2)),
            created_at: timestamp,
        },
    ];
    assert!(store.apply_batch(operations).is_ok());
    let edges = NeighborhoodQuery::out_edges(&store, Vertex::Identity(IdentityId(1)));
    assert_eq!(
        edges,
        vec![(
            Vertex::Identity(IdentityId(1)),
            Relation::AssociatedWith,
            Vertex::Identity(IdentityId(2)),
        )]
    );
    assert_eq!(NeighborhoodQuery::out_edges(&store, Vertex::Identity(IdentityId(999))).len(), 0);
}

#[test]
fn projection_preserves_exact_event_state_topology() {
    let timestamp = Timestamp::from_secs(10);
    let mut store = PetGraphStore::<(), u32, u32>::new();
    let operations = vec![
        GraphOperation::CommitEvent { id: EventId(1), timestamp, payload: 11 },
        GraphOperation::CommitEvent { id: EventId(2), timestamp, payload: 12 },
        GraphOperation::CommitState { id: StateId(1), timestamp, payload: 21 },
        GraphOperation::CommitState { id: StateId(2), timestamp, payload: 22 },
        GraphOperation::CommitIdentity { id: IdentityId(1), created_at: timestamp },
        GraphOperation::CommitObservation(Observation::new(
            ObservationId(1),
            Modality(1),
            timestamp,
            (),
        )),
        GraphOperation::CommitRelation {
            source: Vertex::Event(EventId(1)),
            relation: Relation::Influence,
            target: Vertex::Event(EventId(2)),
            created_at: timestamp,
        },
        GraphOperation::CommitRelation {
            source: Vertex::Event(EventId(1)),
            relation: Relation::Trigger,
            target: Vertex::State(StateId(1)),
            created_at: timestamp,
        },
        GraphOperation::CommitRelation {
            source: Vertex::State(StateId(1)),
            relation: Relation::Lead,
            target: Vertex::State(StateId(2)),
            created_at: timestamp,
        },
        GraphOperation::CommitRelation {
            source: Vertex::Observation(ObservationId(1)),
            relation: Relation::Supports,
            target: Vertex::Identity(IdentityId(1)),
            created_at: timestamp,
        },
        GraphOperation::CommitRelation {
            source: Vertex::Observation(ObservationId(1)),
            relation: Relation::ObservedDuring,
            target: Vertex::State(StateId(1)),
            created_at: timestamp,
        },
    ];
    assert!(store.apply_batch(operations).is_ok());

    let projection = EventStateProjection::project(&store);
    let graph = projection.graph();
    assert_eq!(graph.node_count(), 4);
    assert_eq!(graph.edge_count(), 3);

    for expected in [
        Vertex::Event(EventId(1)),
        Vertex::Event(EventId(2)),
        Vertex::State(StateId(1)),
        Vertex::State(StateId(2)),
    ] {
        assert!(graph.node_weights().any(|vertex| *vertex == expected));
    }

    let expected_edges = [
        (Vertex::Event(EventId(1)), Relation::Influence, Vertex::Event(EventId(2))),
        (Vertex::Event(EventId(1)), Relation::Trigger, Vertex::State(StateId(1))),
        (Vertex::State(StateId(1)), Relation::Lead, Vertex::State(StateId(2))),
    ];
    for (source, relation, target) in expected_edges {
        let matching_edges = graph
            .edge_references()
            .filter(|edge| {
                graph[edge.source()] == source
                    && edge.weight().relation == relation
                    && graph[edge.target()] == target
            })
            .count();
        assert_eq!(matching_edges, 1);
    }
}

#[test]
fn projection_carries_event_and_state_payloads() {
    let mut store = PetGraphStore::<(), u32, u32>::new();
    assert!(store
        .apply_batch(vec![
            GraphOperation::CommitEvent { id: EventId(5), timestamp: Timestamp::from_secs(3), payload: 50 },
            GraphOperation::CommitState { id: StateId(6), timestamp: Timestamp::from_secs(4), payload: 60 },
        ])
        .is_ok());
    let projection = EventStateProjection::project(&store);
    assert_eq!(projection.node_count(), 2);
    assert_eq!(projection.edge_count(), 0);
    let graph = projection.graph();
    let mut seen = 0;
    for index in graph.node_indices() {
        let node = projection.node(index.index() as u32).expect("live projected node");
        match node {
            EventStateNode::Event { id, timestamp, payload } => {
                assert_eq!((*id, *timestamp, *payload), (EventId(5), Timestamp::from_secs(3), 50));
                seen += 1;
            }
            EventStateNode::State { id, timestamp, payload } => {
                assert_eq!((*id, *timestamp, *payload), (StateId(6), Timestamp::from_secs(4), 60));
                seen += 1;
            }
        }
        assert_eq!(node.vertex(), graph[index]);
    }
    assert_eq!(seen, 2);
}

#[test]
fn identity_merge_leaves_event_state_projection_unchanged() {
    let timestamp = Timestamp::from_secs(1);
    let mut store = PetGraphStore::<(), (), ()>::new();
    assert!(store
        .apply_batch(vec![
            GraphOperation::CommitEvent { id: EventId(1), timestamp, payload: () },
            GraphOperation::CommitState { id: StateId(1), timestamp, payload: () },
            GraphOperation::CommitRelation {
                source: Vertex::Event(EventId(1)),
                relation: Relation::Trigger,
                target: Vertex::State(StateId(1)),
                created_at: timestamp,
            },
            GraphOperation::CommitIdentity { id: IdentityId(1), created_at: timestamp },
            GraphOperation::CommitIdentity { id: IdentityId(2), created_at: timestamp },
            GraphOperation::CommitObservation(observation(1)),
            GraphOperation::CommitRelation {
                source: Vertex::Observation(ObservationId(1)),
                relation: Relation::Supports,
                target: Vertex::Identity(IdentityId(2)),
                created_at: timestamp,
            },
        ])
        .is_ok());
    let before = EventStateProjection::project(&store);
    assert!(store.merge_identities(IdentityId(1), IdentityId(2)).is_ok());
    let after = EventStateProjection::project(&store);
    assert_eq!(before.node_count(), after.node_count());
    assert_eq!(before.edge_count(), 1);
    assert_eq!(after.edge_count(), 1);
}

#[test]
fn node_data_reports_registered_vertices_with_payloads() {
    let mut store = PetGraphStore::<&'static str, u32, u32>::new();
    store.reserve(8, 8);
    assert!(store
        .apply_batch(vec![
            GraphOperation::CommitObservation(Observation::new(
                ObservationId(1),
                Modality(2),
                Timestamp::from_secs(5),
                "reading",
            )),
            GraphOperation::CommitIdentity { id: IdentityId(3), created_at: Timestamp::from_secs(6) },
            GraphOperation::CommitEvent { id: EventId(4), timestamp: Timestamp::from_secs(7), payload: 40 },
            GraphOperation::CommitState { id: StateId(5), timestamp: Timestamp::from_secs(8), payload: 50 },
        ])
        .is_ok());
    store.reserve(1, 1);
    assert_eq!(store.node_count(), 4);
    match store.node_data(Vertex::Observation(ObservationId(1))) {
        Some(NodeData::Observation(obs)) => {
            assert_eq!((obs.modality, obs.timestamp, obs.payload), (Modality(2), Timestamp::from_secs(5), "reading"));
        }
        other => panic!("unexpected node data {other:?}"),
    }
    assert!(matches!(
        store.node_data(Vertex::Identity(IdentityId(3))),
        Some(NodeData::Identity { id: IdentityId(3), created_at }) if created_at == Timestamp::from_secs(6)
    ));
    assert!(matches!(
        store.node_data(Vertex::Event(EventId(4))),
        Some(NodeData::Event { id: EventId(4), payload: 40, .. })
    ));
    assert!(matches!(
        store.node_data(Vertex::State(StateId(5))),
        Some(NodeData::State { id: StateId(5), payload: 50, .. })
    ));
    assert!(store.node_data(Vertex::State(StateId(6))).is_none());
}
