//! Checks of the structural properties that every knowledge graph state
//! must satisfy.
use crate::graph::KnowledgeGraph;
use crate::ids::{IdentityId, ObservationId};
use crate::ontology::Vertex;
use vstd::prelude::*;

pub mod causal_dag;
pub mod observation_partition;
pub mod uniqueness;

pub use causal_dag::CausalAcyclicityInvariant;
pub use observation_partition::ObservationPartitionInvariant;
pub use uniqueness::IdentityUniquenessInvariant;

verus! {

/// A violated structural property, with what identifies the violation.
#[derive(Debug, Clone, Copy, PartialEq, Eq, Structural)]
pub enum InvariantViolation {
    /// The event-state causal relations contain a directed cycle.
    CausalCycle,
    /// An observation does not support exactly one identity.
    ObservationSupportCardinality {
        /// Observation with the wrong number of support relations.
        observation: ObservationId,
        /// Number of support relations it has.
        actual: usize,
    },
    /// An identity has no supporting observation.
    IdentitySupportCardinality {
        /// Identity with an empty support set.
        identity: IdentityId,
        /// Number of support relations it receives.
        actual: usize,
    },
    /// A support relation has endpoints of the wrong kinds.
    InvalidSupportEndpoints {
        /// Source of the relation.
        origin: Vertex,
        /// Target of the relation.
        target: Vertex,
    },
    /// An identity node is not the one its index entry names.
    NonCanonicalIdentity {
        /// Identity whose node is not canonical.
        identity: IdentityId,
    },
    /// An identity index entry does not resolve to its node.
    StaleIdentityIndex {
        /// Identity whose index entry is stale.
        identity: IdentityId,
    },
}

/// A structural property of knowledge graph states, with its check.
pub trait Invariant<G: KnowledgeGraph> {
    /// Whether `graph` has the property, for specifications.
    spec fn holds(&self, graph: &G) -> bool;

    /// Checks the property, describing a violation when it fails.
    fn validate(&self, graph: &G) -> (result: Result<(), InvariantViolation>)
        requires
            graph.well_formed(),
        ensures
            result is Ok <==> self.holds(graph),
    ;

    /// Whether the graph has the property.
    fn verify(&self, graph: &G) -> (holds: bool)
        requires
            graph.well_formed(),
        ensures
            holds == self.holds(graph),
    {
        match self.validate(graph) {
            Ok(()) => true,
            Err(_) => false,
        }
    }
}

} // verus!
