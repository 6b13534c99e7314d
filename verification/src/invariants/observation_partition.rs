//! Support sets partition the observations.
use crate::graph::PetGraphStore;
use crate::invariants::{Invariant, InvariantViolation};
use vstd::prelude::*;

verus! {

/// Every observation supports exactly one identity and every identity has a
/// non-empty support set.
pub struct ObservationPartitionInvariant;

impl<P, E, S> Invariant<PetGraphStore<P, E, S>> for ObservationPartitionInvariant {
    open spec fn holds(&self, graph: &PetGraphStore<P, E, S>) -> bool {
        graph.view().observations_partitioned()
    }

    fn validate(&self, graph: &PetGraphStore<P, E, S>) -> (result: Result<(), InvariantViolation>)
        ensures
            result matches Err(violation) ==> match violation {
                InvariantViolation::ObservationSupportCardinality { observation, actual } => actual == 0
                    && graph.view().observations.contains_key(observation.0) && graph.view().support_owner(
                    crate::ontology::Vertex::Observation(observation),
                ) is None,
                InvariantViolation::IdentitySupportCardinality { identity, actual } => actual == 0
                    && graph.view().identities.contains_key(identity.0) && !graph.view().is_supported(
                    identity,
                ),
                _ => false,
            },
    {
        graph.check_observation_partition()
    }
}

} // verus!
