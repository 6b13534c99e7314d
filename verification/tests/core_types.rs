use li_eskg::belief::{BeliefState, BoundedHistory};
use li_eskg::command::{CommandEnvelope, CommandError, IdempotencyKey, ResolutionCommand, SplitPartition, SplitPlan};
use li_eskg::decision::{DecisionAction, DecisionError, DecisionRecord};
use li_eskg::events::RuntimeEvent;
use li_eskg::evidence::{ContentHash, EvidenceError, ObservationEnvelope};
use li_eskg::host::{
    HostEntityRef, HostNodeId, HostReferenceError, HostRelation, HostRelationRole,
};
use li_eskg::identity::{Identity, IdentityStatus, IdentityTransitionError};
use li_eskg::ids::{
    CommitVersion, DecisionId, EventId, IdentityId, ObservationId, PhysicalNodeId, StateId,
    InferenceId, SourceId, TransactionId,
};
use li_eskg::inference::{
    canonical_outcome_order, AssociationOutcome, BoundaryTreatment, IdentityReference, OutcomeDomainError,
    VersionInterval,
};
use li_eskg::observation::{Modality, Timestamp};
use li_eskg::ontology::{Vertex, VertexKind};
use li_eskg::relation::Relation;

#[test]
fn bounded_history_evicts_oldest_without_growing_storage() {
    let mut history = BoundedHistory::new(3);
    for value in 0..100 {
        history.push(value);
        assert_eq!(history.capacity(), 3);
    }
    assert_eq!(history.len(), 3);
    assert_eq!(history.iter().copied().collect::<Vec<_>>(), vec![97, 98, 99]);
    assert_eq!(history.front(), Some(&97));
    assert_eq!(history.back(), Some(&99));
    history.clear();
    assert!(history.is_empty());
    assert_eq!(history.capacity(), 3);
}

#[test]
fn zero_capacity_history_returns_every_entry() {
    let mut history = BoundedHistory::new(0);
    assert_eq!(history.push(7), Some(7));
    assert!(history.is_empty());
    assert_eq!(history.capacity(), 0);
}

#[test]
fn full_history_evicts_oldest_without_growing() {
    let mut history = BoundedHistory::new(2);
    assert_eq!(history.push(1), None);
    assert_eq!(history.push(2), None);
    assert_eq!(history.push(3), Some(1));
    assert_eq!(history.iter().copied().collect::<Vec<_>>(), vec![2, 3]);
    assert_eq!(history.capacity(), 2);
}

#[test]
fn history_restored_from_entries_rejects_overfull_input() {
    assert!(BoundedHistory::from_entries(vec![1, 2, 3], 2).is_none());
    let restored = BoundedHistory::from_entries(vec![1, 2], 2);
    assert!(restored.is_some());
    if let Some(history) = restored {
        assert_eq!(history.iter().copied().collect::<Vec<_>>(), vec![1, 2]);
    }
}

#[test]
fn split_plan_requires_disjoint_nonempty_partitions() {
    let incomplete = SplitPlan::new(
        Vec::new(),
        vec![SplitPartition {
            identity: IdentityId(1),
            observations: vec![ObservationId(1)],
        }],
        Vec::new(),
    );
    assert_eq!(incomplete, Err(CommandError::IncompleteSplit));

    let overlap = SplitPlan::new(
        Vec::new(),
        vec![
            SplitPartition {
                identity: IdentityId(1),
                observations: vec![ObservationId(1)],
            },
            SplitPartition {
                identity: IdentityId(2),
                observations: vec![ObservationId(1)],
            },
        ],
        Vec::new(),
    );
    assert_eq!(overlap, Err(CommandError::OverlappingSplit));

    let valid = SplitPlan::new(
        Vec::new(),
        vec![
            SplitPartition {
                identity: IdentityId(1),
                observations: vec![ObservationId(1)],
            },
            SplitPartition {
                identity: IdentityId(2),
                observations: vec![ObservationId(2)],
            },
        ],
        Vec::new(),
    );
    assert!(valid.is_ok());
}

#[test]
fn test_invalid_event_prevention() {
    assert!(RuntimeEvent::<()>::merged(IdentityId(1), IdentityId(1)).is_none());
    assert!(RuntimeEvent::<()>::merged(IdentityId(1), IdentityId(2)).is_some());
    assert!(RuntimeEvent::<()>::split(IdentityId(1), ObservationId(10), Some(IdentityId(1)))
        .is_none());
    assert!(RuntimeEvent::<()>::split(IdentityId(1), ObservationId(10), Some(IdentityId(2)))
        .is_some());
}

#[test]
fn empty_host_keys_are_unrepresentable() {
    assert_eq!(
        HostEntityRef::new(1, "", CommitVersion::zero()),
        Err(HostReferenceError::EmptyKey)
    );
    let reference = HostEntityRef::new(7, "person:42", CommitVersion::new(3));
    assert!(reference.is_ok());
    if let Ok(reference) = reference {
        assert_eq!(reference.backend(), 7);
        assert_eq!(reference.key(), "person:42");
        assert_eq!(reference.snapshot(), CommitVersion::new(3));
    }
}

#[test]
fn relation_endpoints_match_the_v2_host_contract() {
    let cases = [
        (
            HostRelation::Triggers { state: StateId(1), event: EventId(2) },
            HostRelationRole::Triggers,
            (HostNodeId::State(StateId(1)), HostNodeId::Event(EventId(2))),
        ),
        (
            HostRelation::Occur { event: EventId(2), physical: PhysicalNodeId(3) },
            HostRelationRole::Occur,
            (HostNodeId::Event(EventId(2)), HostNodeId::Physical(PhysicalNodeId(3))),
        ),
    ];
    for (relation, role, endpoints) in cases {
        assert_eq!(relation.role(), role);
        assert_eq!(relation.endpoints(), endpoints);
    }
    assert_eq!(HostRelationRole::all().len(), 6);
}

#[test]
fn role_codes_follow_declaration_order() {
    let roles = HostRelationRole::all();
    for (index, role) in roles.iter().enumerate() {
        assert_eq!(usize::from(role.code()), index);
    }
}

#[test]
fn type_state_transitions_preserve_identity_and_versions() {
    let active = Identity::new(IdentityId(1), Timestamp::from_micros(5), CommitVersion::new(1));
    let dormant = active.dormant(CommitVersion::new(2));
    assert_eq!(dormant.status(), IdentityStatus::Dormant);
    let active = dormant.reactivate(CommitVersion::new(3));
    assert_eq!(active.id(), IdentityId(1));
    assert_eq!(active.created_at(), Timestamp::from_micros(5));
    assert_eq!(active.applied_version(), CommitVersion::new(3));
}

#[test]
fn resolved_and_merged_states_require_their_payloads() {
    let active = Identity::new(IdentityId(4), Timestamp::unix_epoch(), CommitVersion::zero());
    let host = HostEntityRef::new(1, "physical:4", CommitVersion::new(8));
    assert!(host.is_ok());
    if let Ok(host) = host {
        let resolved = active.clone().resolve(host.clone(), CommitVersion::new(9));
        assert_eq!(resolved.host(), Some(&host));
        assert_eq!(resolved.status(), IdentityStatus::Resolved);
    }
    assert_eq!(
        active.clone().merge(IdentityId(4), CommitVersion::new(2)),
        Err(IdentityTransitionError::SelfMerge)
    );
    let merged = active.merge(IdentityId(7), CommitVersion::new(2));
    assert!(merged.is_ok());
    if let Ok(merged) = merged {
        assert_eq!(merged.canonical(), Some(IdentityId(7)));
    }
}

#[test]
fn typed_displays_are_stable() {
    assert_eq!(IdentityId(3).to_string(), "I#3");
    assert_eq!(ObservationId(3).to_string(), "O#3");
    assert_eq!(EventId(3).to_string(), "E#3");
    assert_eq!(StateId(3).to_string(), "S#3");
}

#[test]
fn commit_version_never_wraps() {
    assert_eq!(CommitVersion::zero().checked_next(), Some(CommitVersion::new(1)));
    assert_eq!(CommitVersion::new(u64::MAX).checked_next(), None);
    assert_eq!(CommitVersion::new(42).to_string(), "v42");
}

#[test]
fn multi_digit_identifiers_render_every_digit() {
    assert_eq!(IdentityId(1209).to_string(), "I#1209");
    assert_eq!(CommitVersion::new(u64::MAX).to_string(), "v18446744073709551615");
}

#[test]
fn version_intervals_are_half_open_and_nonempty() {
    assert!(VersionInterval::new(CommitVersion::new(3), Some(CommitVersion::new(3))).is_err());
    let interval = VersionInterval::new(CommitVersion::new(3), Some(CommitVersion::new(5)));
    assert!(interval.is_ok());
    if let Ok(interval) = interval {
        assert!(interval.contains(CommitVersion::new(3)));
        assert!(!interval.contains(CommitVersion::new(5)));
    }
}

#[test]
fn only_exact_boundary_conditions_claim_global_marginal_preservation() {
    assert!(BoundaryTreatment::ExactInduced.preserves_global_marginal());
    assert!(BoundaryTreatment::NoCrossBoundary.preserves_global_marginal());
    assert!(!BoundaryTreatment::CachedApproximation.preserves_global_marginal());
    assert!(!BoundaryTreatment::OmittedApproximation.preserves_global_marginal());
}

#[test]
fn negative_epoch_conversions_use_euclidean_division() {
    let timestamp = Timestamp::from_micros(-1);
    assert_eq!(timestamp.as_millis(), -1);
    assert_eq!(timestamp.as_secs(), -1);
}

#[test]
fn timestamp_conversions_saturate_at_the_range_bounds() {
    assert_eq!(Timestamp::from_secs(i64::MAX), Timestamp::max_value());
    assert_eq!(Timestamp::from_millis(i64::MIN), Timestamp::min_value());
    assert_eq!(Timestamp::from_secs(2).as_micros(), 2_000_000);
    assert_eq!(Timestamp::from_micros(1_999_999).as_secs(), 1);
    assert_eq!(Timestamp::max_value().saturating_add_micros(1), Timestamp::max_value());
    assert_eq!(Timestamp::from_micros(10).elapsed_micros_since(Timestamp::from_micros(4)), 6);
}

#[test]
fn vertex_conversion_preserves_disjoint_partitions() {
    let observation = Vertex::from(ObservationId(11));
    let identity = Vertex::from(IdentityId(11));
    assert_ne!(observation, identity);
    assert_ne!(observation.vertex_id(), identity.vertex_id());
    assert_eq!(observation.kind(), VertexKind::Observation);
    assert_eq!(identity.kind(), VertexKind::Identity);
    assert_eq!(observation.raw_id(), 11);
}

#[test]
fn every_vertex_maps_to_the_expected_tagged_identifier() {
    let cases = [
        (Vertex::Observation(ObservationId(1)), VertexKind::Observation),
        (Vertex::Identity(IdentityId(2)), VertexKind::Identity),
        (Vertex::Event(EventId(3)), VertexKind::Event),
        (Vertex::State(StateId(4)), VertexKind::State),
    ];
    for (vertex, expected_kind) in cases {
        assert_eq!(vertex.vertex_id().kind(), expected_kind);
        assert_eq!(vertex.vertex_id().raw(), vertex.raw_id());
    }
}

#[test]
fn relation_domains_are_exhaustively_enforced() {
    let source_vertices = [
        Vertex::Observation(ObservationId(1)),
        Vertex::Identity(IdentityId(1)),
        Vertex::Event(EventId(1)),
        Vertex::State(StateId(1)),
    ];
    let target_vertices = [
        Vertex::Observation(ObservationId(2)),
        Vertex::Identity(IdentityId(2)),
        Vertex::Event(EventId(2)),
        Vertex::State(StateId(2)),
    ];
    let cases = [
        (Relation::Trigger, 2, 3),
        (Relation::Lead, 3, 3),
        (Relation::Evolution, 3, 3),
        (Relation::Contain, 3, 3),
        (Relation::Occur, 2, 3),
        (Relation::Influence, 2, 2),
        (Relation::ObservedDuring, 0, 3),
        (Relation::Describes, 0, 3),
        (Relation::Supports, 0, 1),
        (Relation::Refines, 1, 1),
        (Relation::AssociatedWith, 1, 1),
    ];
    for (relation, expected_source, expected_target) in cases {
        for (source_index, source) in source_vertices.iter().enumerate() {
            for (target_index, target) in target_vertices.iter().enumerate() {
                assert_eq!(
                    relation.is_valid_transition(source, target),
                    source_index == expected_source && target_index == expected_target,
                    "unexpected domain for {relation:?}: {source:?} -> {target:?}"
                );
            }
        }
    }
}

#[test]
fn same_partition_structural_self_loops_are_rejected() {
    let cases = [
        (Relation::Lead, Vertex::State(StateId(7))),
        (Relation::Evolution, Vertex::State(StateId(7))),
        (Relation::Contain, Vertex::State(StateId(7))),
        (Relation::Influence, Vertex::Event(EventId(7))),
        (Relation::Refines, Vertex::Identity(IdentityId(7))),
        (Relation::AssociatedWith, Vertex::Identity(IdentityId(7))),
    ];
    for (relation, vertex) in cases {
        assert!(!relation.is_valid_transition(&vertex, &vertex));
    }
}

#[test]
fn relation_layers_partition_the_relation_set() {
    let eskg = [
        Relation::Trigger,
        Relation::Lead,
        Relation::Evolution,
        Relation::Contain,
        Relation::Occur,
        Relation::Influence,
    ];
    let li = [
        Relation::ObservedDuring,
        Relation::Describes,
        Relation::Supports,
        Relation::Refines,
        Relation::AssociatedWith,
    ];
    for relation in eskg {
        assert!(relation.is_eskg_relation());
        assert!(!relation.is_li_relation());
    }
    for relation in li {
        assert!(!relation.is_eskg_relation());
        assert!(relation.is_li_relation());
    }
}

#[test]
fn arithmetic_saturates_at_numeric_extremes() {
    assert_eq!(Timestamp::max_value() + chrono::TimeDelta::microseconds(1), Timestamp::max_value());
    assert_eq!(Timestamp::min_value() - chrono::TimeDelta::microseconds(1), Timestamp::min_value());
    assert_eq!(
        Timestamp::unix_epoch().duration_since(Timestamp::from_micros(1)),
        chrono::TimeDelta::zero()
    );
}

#[test]
fn timestamp_spans_follow_chrono_microseconds() {
    let start = Timestamp::from_micros(1_000);
    assert_eq!(start + chrono::TimeDelta::microseconds(234), Timestamp::from_micros(1_234));
    assert_eq!(start - chrono::TimeDelta::microseconds(1_500), Timestamp::from_micros(-500));
    assert_eq!(start + chrono::TimeDelta::nanoseconds(-1_999), Timestamp::from_micros(999));
    assert_eq!(Timestamp::from_micros(1_234) - start, chrono::TimeDelta::microseconds(234));
    assert_eq!(Timestamp::from_micros(1_234).duration_since(start), chrono::TimeDelta::microseconds(234));
    assert_eq!(Timestamp::max_value() - Timestamp::min_value(), chrono::TimeDelta::microseconds(i64::MAX));
    assert_eq!(start + chrono::TimeDelta::MAX, Timestamp::max_value());
    assert_eq!(start + chrono::TimeDelta::MIN, Timestamp::min_value());
    assert_eq!(start - chrono::TimeDelta::MAX, Timestamp::min_value());
}

#[test]
fn posterior_updates_do_not_regress_last_update_time() {
    let mut belief = BeliefState::new(IdentityId(1), (), 0.4_f64, Timestamp::from_micros(20));

    belief.update_posterior(0.8, Timestamp::from_micros(10));
    assert_eq!(belief.posterior, 0.8);
    assert_eq!(belief.last_update, Timestamp::from_micros(20));

    belief.update_posterior(0.9, Timestamp::from_micros(30));
    assert_eq!(belief.last_update, Timestamp::from_micros(30));
}

type UnitCommand = ResolutionCommand<(), (), ()>;

#[test]
fn idempotency_and_merge_smart_constructors_reject_impossible_values() {
    assert_eq!(IdempotencyKey::new([0; 16]), Err(CommandError::ZeroIdempotencyKey));
    assert!(IdempotencyKey::new([1; 16]).is_ok());
    assert_eq!(
        UnitCommand::merge(DecisionId(1), IdentityId(1), IdentityId(1), Vec::new(), 1, 1),
        Err(CommandError::SelfMerge)
    );
    let key = IdempotencyKey::new([1; 16]);
    assert!(key.is_ok());
    if let Ok(key) = key {
        assert_eq!(
            CommandEnvelope::<(), (), ()>::new(
                TransactionId(1),
                CommitVersion::zero(),
                key,
                Timestamp::unix_epoch(),
                Vec::new(),
                Vec::new(),
            ),
            Err(CommandError::EmptyBatch)
        );
    }
}

#[test]
fn command_envelope_keeps_its_replay_metadata_and_batch() {
    let key = IdempotencyKey::new([7; 16]).unwrap();
    let merge = UnitCommand::merge(DecisionId(3), IdentityId(1), IdentityId(2), vec![DecisionId(1)], 4, 5).unwrap();
    assert_eq!(
        merge,
        ResolutionCommand::Merge {
            decision: DecisionId(3),
            left: IdentityId(1),
            right: IdentityId(2),
            support: vec![DecisionId(1)],
            policy_version: 4,
            loss_version: 5,
        }
    );
    let envelope = CommandEnvelope::new(
        TransactionId(9),
        CommitVersion::zero(),
        key,
        Timestamp::from_micros(42),
        vec![TransactionId(8)],
        vec![merge.clone(), UnitCommand::Retire(IdentityId(2))],
    )
    .unwrap();
    assert_eq!(envelope.transaction(), TransactionId(9));
    assert_eq!(envelope.expected_version(), CommitVersion::zero());
    assert_eq!(envelope.idempotency(), key);
    assert_eq!(envelope.issued_at(), Timestamp::from_micros(42));
    assert_eq!(envelope.depends_on(), &[TransactionId(8)]);
    assert_eq!(envelope.commands(), &[merge, UnitCommand::Retire(IdentityId(2))]);
}

#[test]
fn outcome_domain_sorts_identities_before_new_and_noise() {
    let latent = |id: u64| AssociationOutcome::Identity(IdentityReference::Latent(IdentityId(id)));
    let domain = vec![AssociationOutcome::Noise, latent(5), AssociationOutcome::New, latent(2)];
    assert_eq!(canonical_outcome_order(&domain), Ok(vec![3, 1, 2, 0]));
    assert_eq!(
        canonical_outcome_order(&[AssociationOutcome::New, AssociationOutcome::Noise, AssociationOutcome::New]),
        Err(OutcomeDomainError::DuplicateOutcome)
    );
    assert_eq!(
        canonical_outcome_order(&[latent(1), latent(1)]),
        Err(OutcomeDomainError::DuplicateOutcome)
    );
    assert_eq!(
        canonical_outcome_order(&[latent(1), AssociationOutcome::New]),
        Err(OutcomeDomainError::MissingOpenWorldOutcome)
    );
    assert_eq!(canonical_outcome_order(&[]), Err(OutcomeDomainError::MissingOpenWorldOutcome));
}

#[test]
fn decision_record_rejects_targets_outside_domain() {
    let domain = vec![
        AssociationOutcome::Identity(IdentityReference::Latent(IdentityId(1))),
        AssociationOutcome::New,
        AssociationOutcome::Noise,
    ];
    let decision = DecisionRecord::new(
        DecisionId(1),
        InferenceId(2),
        DecisionAction::Assign(IdentityReference::Latent(IdentityId(99))),
        1,
        1,
        VersionInterval::current(CommitVersion::new(1)),
        &domain,
    );
    assert_eq!(decision, Err(DecisionError::TargetOutsideDomain));
    let accepted = DecisionRecord::new(
        DecisionId(1),
        InferenceId(2),
        DecisionAction::Assign(IdentityReference::Latent(IdentityId(1))),
        1,
        1,
        VersionInterval::current(CommitVersion::new(1)),
        &domain,
    );
    assert_eq!(accepted.map(|record| record.id), Ok(DecisionId(1)));
    let abstain = DecisionRecord::new(
        DecisionId(3),
        InferenceId(2),
        DecisionAction::Abstain,
        1,
        1,
        VersionInterval::current(CommitVersion::new(1)),
        &[],
    );
    assert!(abstain.is_ok());
}

#[test]
fn observations_keep_two_clocks_and_reject_self_correction() {
    let payload = bytes::Bytes::from_static(b"evidence");
    let result = ObservationEnvelope::new(
        ObservationId(9),
        SourceId(2),
        Modality(3),
        Timestamp::from_micros(20),
        Timestamp::from_micros(10),
        payload.clone(),
        (),
        ContentHash::new([7; 32]),
        None,
    );
    assert!(result.is_ok());
    if let Ok(observation) = result {
        assert_eq!(observation.event_time(), Timestamp::from_micros(20));
        assert_eq!(observation.ingestion_time(), Timestamp::from_micros(10));
        assert_eq!(observation.payload(), &payload);
        assert_eq!(observation.id(), ObservationId(9));
        assert_eq!(observation.source(), SourceId(2));
        assert_eq!(observation.modality(), Modality(3));
        assert_eq!(observation.content_hash(), ContentHash::new([7; 32]));
        assert_eq!(observation.supersedes(), None);
    }

    let self_correction = ObservationEnvelope::new(
        ObservationId(9),
        SourceId(2),
        Modality(3),
        Timestamp::unix_epoch(),
        Timestamp::unix_epoch(),
        bytes::Bytes::new(),
        (),
        ContentHash::new([0; 32]),
        Some(ObservationId(9)),
    );
    assert_eq!(self_correction, Err(EvidenceError::SelfSupersession));
    let correction = ObservationEnvelope::new(
        ObservationId(10),
        SourceId(2),
        Modality(3),
        Timestamp::unix_epoch(),
        Timestamp::unix_epoch(),
        bytes::Bytes::new(),
        (),
        ContentHash::new([0; 32]),
        Some(ObservationId(9)),
    );
    assert_eq!(correction.map(|observation| observation.supersedes()), Ok(Some(ObservationId(9))));
}

#[test]
fn history_pushes_and_clears_keep_capacity_and_newest_entry() {
    let mut history = BoundedHistory::new(2);
    for value in [1, 2, 3] {
        history.push(value);
        assert_eq!(history.back(), Some(&value));
        assert!(history.len() <= history.capacity());
    }
    history.clear();
    assert_eq!(history.capacity(), 2);
    assert!(history.is_empty());
    history.push(4);
    assert_eq!(history.len(), 1);
    assert_eq!(history.front(), Some(&4));
    assert_eq!(history.capacity(), 2);
}
