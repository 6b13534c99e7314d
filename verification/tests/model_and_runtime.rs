use li_eskg::channels::EventQueue;
use li_eskg::dispatcher::{DispatchOutcome, EventDispatcher};
use li_eskg::events::RuntimeEvent;
use li_eskg::executor::{ExecutionSink, OperationExecutor};
use li_eskg::graph::KnowledgeGraph;
use li_eskg::host_graph::{HostSchemaError, HostSchemaProfile};
use li_eskg::belief::BeliefState;
use li_eskg::command::{CommandError, ResolutionCommand};
use li_eskg::compiler::filter_candidates;
use li_eskg::ids::{CommitVersion, IdentityId, ObservationId, StateId, TransactionId};
use li_eskg::inference::IdentityReference;
use li_eskg::memory::MemoryGraph;
use li_eskg::observation::{Modality, Observation, Timestamp};
use li_eskg::ontology::Vertex;
use li_eskg::operations::{GraphOperation, IdentityAssignment};
use li_eskg::pipeline::{BoundedIngress, IdPool, PipelineError, Sequence, SequenceError};
use li_eskg::raw_channel::{ReceiveRefusal, SendRefusal};
use li_eskg::projection::EventStateNode;
use li_eskg::provider::{CandidateBuffer, ProviderError};
use li_eskg::relation::Relation;
use li_eskg::scheduler::{plan_observation_commit, IdentityGenerator};

#[test]
fn profile_requires_six_distinct_native_predicates() {
    let duplicate = HostSchemaProfile::new([
        String::from("x"),
        String::from("x"),
        String::from("2"),
        String::from("3"),
        String::from("4"),
        String::from("5"),
    ]);
    assert_eq!(duplicate, Err(HostSchemaError::DuplicatePredicate));
}

#[test]
fn identity_assignment_distinguishes_existing_and_new_identities() {
    let identity = IdentityId(7);
    assert_eq!(IdentityAssignment::Existing(identity), IdentityAssignment::Existing(identity));
    assert_ne!(IdentityAssignment::Existing(identity), IdentityAssignment::New(identity));
}

#[test]
fn merge_operation_preserves_both_identity_roles() {
    let operation = GraphOperation::<(), (), ()>::MergeIdentities {
        target: IdentityId(1),
        duplicate: IdentityId(2),
    };
    assert_eq!(
        operation,
        GraphOperation::MergeIdentities { target: IdentityId(1), duplicate: IdentityId(2) }
    );
}

#[test]
fn event_state_node_reports_typed_vertex() {
    let node = EventStateNode::<(), ()>::State {
        id: StateId(7),
        timestamp: Timestamp::unix_epoch(),
        payload: (),
    };
    assert_eq!(node.vertex(), Vertex::State(StateId(7)));
}

#[test]
fn test_symmetric_edges_on_relation_commit() {
    let mut graph: MemoryGraph<(), (), ()> = MemoryGraph::new();
    let source = Vertex::Observation(ObservationId(1));
    let target = Vertex::Identity(IdentityId(2));
    graph.commit_batch(vec![GraphOperation::CommitRelation {
        source,
        relation: Relation::Supports,
        target,
        created_at: Timestamp::from_micros(1000),
    }]);
    let out_edges = graph.out_edges(source);
    assert_eq!(out_edges.len(), 1);
    assert_eq!(out_edges[0].target, target);
    let in_edges = graph.in_edges(target);
    assert_eq!(in_edges.len(), 1);
    assert_eq!(in_edges[0].source, source);
}

#[test]
fn test_identity_set_query() {
    let mut graph: MemoryGraph<(), (), ()> = MemoryGraph::new();
    graph.commit_batch(vec![
        GraphOperation::CommitIdentity { id: IdentityId(1), created_at: Timestamp::from_micros(0) },
        GraphOperation::CommitIdentity { id: IdentityId(2), created_at: Timestamp::from_micros(0) },
    ]);
    let mut identities = graph.identity_ids();
    identities.sort();
    assert_eq!(identities, vec![IdentityId(1), IdentityId(2)]);
}

#[test]
fn test_query_support_set() {
    let mut graph: MemoryGraph<&'static str, (), ()> = MemoryGraph::new();
    let identity_id = IdentityId(100);
    let obs_id = ObservationId(1);
    graph.commit_batch(vec![
        GraphOperation::CommitIdentity { id: identity_id, created_at: Timestamp::from_micros(500) },
        GraphOperation::CommitObservation(Observation::new(
            obs_id,
            Modality(1),
            Timestamp::from_micros(500),
            "sensor_reading",
        )),
        GraphOperation::CommitRelation {
            source: Vertex::Observation(obs_id),
            relation: Relation::Supports,
            target: Vertex::Identity(identity_id),
            created_at: Timestamp::from_micros(501),
        },
    ]);
    let support = KnowledgeGraph::query_support_set(&graph, identity_id).unwrap();
    assert_eq!(support.len(), 1);
    assert_eq!(support[0].payload, "sensor_reading");
}

#[test]
fn memory_graph_support_set_follows_supports_relations() {
    let mut graph: MemoryGraph<&'static str, (), ()> = MemoryGraph::new();
    let identity = IdentityId(100);
    let observation = ObservationId(1);
    graph.commit_batch(vec![
        GraphOperation::CommitIdentity { id: identity, created_at: Timestamp::from_micros(500) },
        GraphOperation::CommitObservation(Observation::new(
            observation,
            Modality(1),
            Timestamp::from_micros(500),
            "sensor_reading",
        )),
        GraphOperation::CommitRelation {
            source: Vertex::Observation(observation),
            relation: Relation::Supports,
            target: Vertex::Identity(identity),
            created_at: Timestamp::from_micros(501),
        },
        GraphOperation::CommitRelation {
            source: Vertex::Observation(observation),
            relation: Relation::Supports,
            target: Vertex::Identity(identity),
            created_at: Timestamp::from_micros(501),
        },
    ]);
    let support = graph.support_set(identity);
    assert_eq!(support.len(), 1);
    assert_eq!(support[0].payload, "sensor_reading");
    assert_eq!(graph.lookup_vertex(Vertex::Identity(identity)), Some(Vertex::Identity(identity)));
    assert_eq!(graph.lookup_vertex(Vertex::Identity(IdentityId(5))), None);
}

#[test]
fn test_queue_push_pop_fifo() {
    let mut q = EventQueue::new(2);
    assert!(q.is_empty());
    assert_eq!(q.push(10), Ok(()));
    assert_eq!(q.push(20), Ok(()));
    assert_eq!(q.len(), 2);
    assert_eq!(q.pop(), Some(10));
    assert_eq!(q.pop(), Some(20));
    assert_eq!(q.pop(), None);
    assert!(q.is_empty());
}

#[test]
fn test_queue_overflow_edge_case() {
    let mut q = EventQueue::new(1);
    assert_eq!(q.push(1), Ok(()));
    assert_eq!(q.push(2), Err(2));
    assert_eq!(q.len(), 1);
}

#[test]
fn test_zero_capacity_edge_case() {
    let mut q = EventQueue::new(0);
    assert_eq!(q.push(42), Err(42));
    assert_eq!(q.pop(), None);
}

#[test]
fn test_dispatch_control_events() {
    let dispatcher = EventDispatcher::new();
    let cp: RuntimeEvent<()> = RuntimeEvent::Checkpoint;
    let sd: RuntimeEvent<()> = RuntimeEvent::Shutdown;
    assert_eq!(dispatcher.dispatch(cp), DispatchOutcome::TriggerCheckpoint);
    assert_eq!(dispatcher.dispatch(sd), DispatchOutcome::Shutdown);
}

#[test]
fn dispatch_routes_evidence_and_ignores_lifecycle_notices() {
    let dispatcher = EventDispatcher::new();
    assert_eq!(
        dispatcher.dispatch(RuntimeEvent::Observation(42u64)),
        DispatchOutcome::EvaluateObservation(42u64)
    );
    assert_eq!(
        dispatcher.dispatch(RuntimeEvent::<()>::IdentityMerged {
            target: IdentityId(1),
            duplicate: IdentityId(2),
        }),
        DispatchOutcome::MergeIdentities { target: IdentityId(1), duplicate: IdentityId(2) }
    );
    assert_eq!(
        dispatcher.dispatch(RuntimeEvent::<()>::IdentityCreated(IdentityId(3))),
        DispatchOutcome::NoOp
    );
}

struct MockSink {
    executed_count: usize,
}

impl<P, E, S> ExecutionSink<P, E, S> for MockSink {
    type Error = ();

    fn execute_batch(&mut self, operations: &[GraphOperation<P, E, S>]) -> Result<(), ()> {
        self.executed_count += operations.len();
        Ok(())
    }
}

#[test]
fn test_executor_commit_empty() {
    let sink = MockSink { executed_count: 0 };
    let mut executor = OperationExecutor::new(sink);
    let ops: Vec<GraphOperation<(), (), ()>> = Vec::new();
    assert!(executor.commit(ops).is_ok());
    assert_eq!(executor.sink().executed_count, 0);
}

#[test]
fn test_executor_commit_slice_preserves_reusable_buffer() {
    let sink = MockSink { executed_count: 0 };
    let mut executor = OperationExecutor::new(sink);
    let operations = Vec::from([GraphOperation::<(), (), ()>::MergeIdentities {
        target: IdentityId(1),
        duplicate: IdentityId(2),
    }]);
    let original_capacity = operations.capacity();
    assert!(executor.commit_slice(&operations).is_ok());
    assert_eq!(executor.sink().executed_count, 1);
    assert_eq!(operations.capacity(), original_capacity);
}

#[test]
fn candidate_groups_reject_out_of_order_and_out_of_range_indexes() {
    let mut buffer = CandidateBuffer::default();
    buffer.reset(2);
    assert_eq!(buffer.push_observation(1, 2, Vec::new()), Err(ProviderError::CandidateOrder));
    assert_eq!(
        buffer.push_observation(2, 2, Vec::new()),
        Err(ProviderError::ObservationOutOfBounds { index: 2, batch_len: 2 })
    );
}

#[test]
fn candidate_buffer_canonicalizes_groups() {
    let mut buffer = CandidateBuffer::with_capacity(2, 4);
    buffer.reset(2);
    assert!(buffer
        .push_observation(
            0,
            2,
            vec![
                IdentityReference::Latent(IdentityId(2)),
                IdentityReference::Latent(IdentityId(1)),
                IdentityReference::Latent(IdentityId(2)),
            ],
        )
        .is_ok());
    assert!(buffer.push_observation(1, 2, Vec::new()).is_ok());
    assert_eq!(
        buffer.get(0),
        Some(
            [IdentityReference::Latent(IdentityId(1)), IdentityReference::Latent(IdentityId(2))]
                .as_slice()
        )
    );
    assert_eq!(buffer.get(1), Some([].as_slice()));
    assert_eq!(buffer.get(2), None);
    assert_eq!(buffer.observation_count(), 2);
    assert_eq!(buffer.candidate_count(), 2);
    buffer.reset(2);
    assert_eq!(buffer.candidate_count(), 0);
}

struct SequentialIdGen(u64);

impl IdentityGenerator for SequentialIdGen {
    fn next_identity_id(&mut self) -> IdentityId {
        self.0 += 1;
        IdentityId(self.0)
    }
}

#[test]
fn test_sequential_id_generator() {
    let mut generator = SequentialIdGen(100);
    assert_eq!(generator.next_identity_id(), IdentityId(101));
    assert_eq!(generator.next_identity_id(), IdentityId(102));
}

#[test]
fn commit_plan_creates_an_identity_only_without_selection() {
    let mut generator = SequentialIdGen(100);
    let observation = Observation::new(ObservationId(5), Modality(1), Timestamp::from_micros(9), ());
    let (operations, target) =
        plan_observation_commit::<(), (), (), _>(observation.clone(), None, &mut generator);
    assert_eq!(target, IdentityId(101));
    assert_eq!(operations.len(), 3);
    assert_eq!(
        operations[1],
        GraphOperation::CommitIdentity { id: IdentityId(101), created_at: Timestamp::from_micros(9) }
    );
    let (operations, target) = plan_observation_commit::<(), (), (), _>(
        observation,
        Some(IdentityId(7)),
        &mut generator,
    );
    assert_eq!(target, IdentityId(7));
    assert_eq!(operations.len(), 2);
    assert_eq!(
        operations[1],
        GraphOperation::CommitRelation {
            source: Vertex::Observation(ObservationId(5)),
            relation: Relation::Supports,
            target: Vertex::Identity(IdentityId(7)),
            created_at: Timestamp::from_micros(9),
        }
    );
    assert_eq!(generator.next_identity_id(), IdentityId(102));
}

#[test]
fn identifier_sequences_start_at_one_and_never_wrap() {
    let mut sequence = Sequence::new();
    assert_eq!(sequence.next(), Ok(1));
    assert_eq!(sequence.next(), Ok(2));
    let _ = SequenceError::IdExhausted;
}

#[test]
fn bounded_ingress_reports_backpressure() -> Result<(), PipelineError> {
    let queue = BoundedIngress::new(1)?;
    assert!(queue.try_send(1).is_ok());
    assert!(matches!(queue.try_send(2), Err(SendRefusal::Full(2))));
    assert_eq!(queue.try_recv(), Ok(1));
    Ok(())
}

#[test]
fn empty_ingress_refuses_zero_capacity_and_reports_its_depth() {
    assert!(matches!(BoundedIngress::<u8>::new(0), Err(PipelineError::EmptyBatch)));
    let queue = BoundedIngress::new(2).unwrap();
    assert!(queue.is_empty());
    assert_eq!(queue.try_recv(), Err(ReceiveRefusal::Empty));
    queue.try_send(5u8).unwrap();
    assert_eq!(queue.len(), 1);
}

#[test]
fn transaction_envelopes_carry_sequential_ids_and_derived_keys() {
    let mut pool = IdPool::new();
    let first = pool
        .envelope::<(), (), ()>(
            CommitVersion::zero(),
            Timestamp::from_micros(3),
            Vec::new(),
            vec![ResolutionCommand::Retire(IdentityId(1))],
        )
        .unwrap();
    assert_eq!(first.transaction(), TransactionId(1));
    let mut expected = [0u8; 16];
    expected[0] = 1;
    expected[8..14].copy_from_slice(b"LIESKG");
    assert_eq!(first.idempotency().as_bytes(), &expected);
    assert_eq!(
        pool.envelope::<(), (), ()>(CommitVersion::zero(), Timestamp::from_micros(3), Vec::new(), Vec::new()),
        Err(PipelineError::Command(CommandError::EmptyBatch))
    );
    let third = pool
        .envelope::<(), (), ()>(
            CommitVersion::zero(),
            Timestamp::from_micros(4),
            vec![TransactionId(1)],
            vec![ResolutionCommand::Dormant(IdentityId(1))],
        )
        .unwrap();
    assert_eq!(third.transaction(), TransactionId(3));
    assert_eq!(third.idempotency().as_bytes()[0], 3);
}

#[test]
fn candidate_filter_keeps_listed_identities_in_order() {
    let a = BeliefState::new(IdentityId(1), (), 1_u8, Timestamp::from_micros(1));
    let b = BeliefState::new(IdentityId(2), (), 2_u8, Timestamp::from_micros(2));
    let c = BeliefState::new(IdentityId(3), (), 3_u8, Timestamp::from_micros(3));
    let active = vec![&a, &b, &c];
    let all: Vec<u64> = filter_candidates(&[], &active).iter().map(|belief| belief.identity.0).collect();
    assert_eq!(all, vec![1, 2, 3]);
    let kept: Vec<u64> = filter_candidates(&[IdentityId(3), IdentityId(1), IdentityId(9)], &active)
        .iter()
        .map(|belief| belief.identity.0)
        .collect();
    assert_eq!(kept, vec![1, 3]);
    assert!(filter_candidates(&[IdentityId(9)], &active).is_empty());
}
