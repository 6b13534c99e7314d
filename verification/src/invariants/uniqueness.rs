//! One canonical node per identity.
use crate::graph::PetGraphStore;
use crate::invariants::{Invariant, InvariantViolation};
use vstd::prelude::*;

verus! {

/// Each identity is represented by exactly one node, which its index entry
/// names.
pub struct IdentityUniquenessInvariant;

impl<P, E, S> Invariant<PetGraphStore<P, E, S>> for IdentityUniquenessInvariant {
    open spec fn holds(&self, graph: &PetGraphStore<P, E, S>) -> bool {
        graph.identities_canonical()
    }

    fn validate(&self, graph: &PetGraphStore<P, E, S>) -> (result: Result<(), InvariantViolation>) {
        proof {
            graph.lemma_identities_canonical();
        }
        graph.check_identity_index()
    }
}

} // verus!
