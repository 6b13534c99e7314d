//! Transactional primitives driving mutations in the persistent graph layer.
use crate::ids::{EventId, IdentityId, StateId};
use crate::observation::{Observation, Timestamp};
use crate::ontology::Vertex;
use crate::relation::Relation;
use vstd::prelude::*;

verus! {

/// Resolved assignment for an incoming observation.
#[derive(Debug, Clone, Copy, PartialEq, Eq, Structural)]
pub enum IdentityAssignment {
    /// Attach the observation to an identity already present in the graph.
    Existing(IdentityId),
    /// Create a new identity and attach the observation to it atomically.
    New(IdentityId),
}

/// Atomic graph operational primitives updating topology or payload records.
#[derive(Debug, Clone, PartialEq)]
pub enum GraphOperation<P, E, S> {
    /// Commits an empirical observation node to `O`.
    CommitObservation(Observation<P>),
    /// Commits a resolved latent identity node to `I`.
    CommitIdentity {
        /// Identity identifier.
        id: IdentityId,
        /// Creation time.
        created_at: Timestamp,
    },
    /// Commits a temporal event node to `E`.
    CommitEvent {
        /// Event identifier.
        id: EventId,
        /// Occurrence time.
        timestamp: Timestamp,
        /// Domain payload.
        payload: E,
    },
    /// Commits a state snapshot node to `S`.
    CommitState {
        /// State identifier.
        id: StateId,
        /// Snapshot time.
        timestamp: Timestamp,
        /// Domain payload.
        payload: S,
    },
    /// Establishes a directed semantic edge between two domain vertices.
    CommitRelation {
        /// Origin vertex.
        source: Vertex,
        /// Semantic relation.
        relation: Relation,
        /// Destination vertex.
        target: Vertex,
        /// Creation time.
        created_at: Timestamp,
    },
    /// Canonicalizes two active identities: the target absorbs every
    /// incident relation of the duplicate, which is then removed.
    MergeIdentities {
        /// Canonical identity that remains active.
        target: IdentityId,
        /// Duplicate identity removed after its relations are rewired.
        duplicate: IdentityId,
    },
}

} // verus!
