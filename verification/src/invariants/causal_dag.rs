//! Acyclicity of the deterministic event-state causal subgraph.
use crate::graph::PetGraphStore;
use crate::invariants::{Invariant, InvariantViolation};
use vstd::prelude::*;

verus! {

/// The causal relations `R_eskg` form a directed acyclic graph.
pub struct CausalAcyclicityInvariant;

impl<P, E, S> Invariant<PetGraphStore<P, E, S>> for CausalAcyclicityInvariant {
    open spec fn holds(&self, graph: &PetGraphStore<P, E, S>) -> bool {
        !graph.view().has_causal_cycle()
    }

    fn validate(&self, graph: &PetGraphStore<P, E, S>) -> (result: Result<(), InvariantViolation>)
        ensures
            result is Err ==> result == Err::<(), InvariantViolation>(InvariantViolation::CausalCycle),
    {
        if graph.has_causal_cycle() {
            Err(InvariantViolation::CausalCycle)
        } else {
            Ok(())
        }
    }
}

} // verus!
