//! Semantic relation typings and topology schema validation.
use crate::ontology::Vertex;
use vstd::prelude::*;

verus! {

/// Classification of semantic edges allowed within the knowledge graph schema.
#[derive(Debug, Clone, Copy, PartialEq, Eq, Structural, PartialOrd, Ord, Hash)]
pub enum Relation {
    /// Causal event triggering a state transition (`E × S`).
    Trigger,
    /// Temporal sequencing between subsequent states (`S × S`).
    Lead,
    /// Evolution between successive entity states (`S × S`).
    Evolution,
    /// Mereological decomposition of composite states (`S × S`).
    Contain,
    /// Spatio-temporal anchoring of events (`E × S`).
    Occur,
    /// Causal interaction link between distinct events (`E × E`).
    Influence,
    /// Temporal binding of evidence to a window (`O × S`).
    ObservedDuring,
    /// Direct semantic property attribution (`O × S`).
    Describes,
    /// Empirical evidence supporting an identity (`O × I`).
    Supports,
    /// Structural merging of historical identities (`I × I`).
    Refines,
    /// Probabilistic association between entities (`I × I`).
    AssociatedWith,
}

/// Whether a relation belongs to the persistent causal subgraph `R_eskg`.
pub open spec fn spec_is_eskg(relation: Relation) -> bool {
    match relation {
        Relation::Trigger | Relation::Lead | Relation::Evolution | Relation::Contain
        | Relation::Occur | Relation::Influence => true,
        _ => false,
    }
}

/// The schema domain of each relation: which (source, target) pairs are
/// admissible.
pub open spec fn spec_valid_transition(relation: Relation, source: Vertex, target: Vertex) -> bool {
    match relation {
        Relation::Trigger | Relation::Occur => source is Event && target is State,
        Relation::Lead | Relation::Evolution | Relation::Contain => {
            source is State && target is State && source != target
        },
        Relation::Influence => source is Event && target is Event && source != target,
        Relation::ObservedDuring | Relation::Describes => source is Observation && target is State,
        Relation::Supports => source is Observation && target is Identity,
        Relation::Refines | Relation::AssociatedWith => {
            source is Identity && target is Identity && source != target
        },
    }
}

impl Relation {
    /// Returns `true` if the edge belongs to the persistent ESKG causal
    /// subgraph.
    pub fn is_eskg_relation(&self) -> (eskg: bool)
        ensures
            eskg == spec_is_eskg(*self),
    {
        match self {
            Relation::Trigger | Relation::Lead | Relation::Evolution | Relation::Contain
            | Relation::Occur | Relation::Influence => true,
            _ => false,
        }
    }

    /// Returns `true` if the edge belongs to the LI operational subgraph.
    pub fn is_li_relation(&self) -> (li: bool)
        ensures
            li == !spec_is_eskg(*self),
    {
        !self.is_eskg_relation()
    }

    /// Validates whether a directed edge `(source, relation, target)` respects
    /// the schema invariants.
    pub fn is_valid_transition(&self, source: &Vertex, target: &Vertex) -> (valid: bool)
        ensures
            valid == spec_valid_transition(*self, *source, *target),
    {
        match self {
            Relation::Trigger | Relation::Occur => {
                matches!(source, Vertex::Event(_)) && matches!(target, Vertex::State(_))
            },
            Relation::Lead | Relation::Evolution | Relation::Contain => {
                matches!(source, Vertex::State(_)) && matches!(target, Vertex::State(_)) && *source
                    != *target
            },
            Relation::Influence => {
                matches!(source, Vertex::Event(_)) && matches!(target, Vertex::Event(_)) && *source
                    != *target
            },
            Relation::ObservedDuring | Relation::Describes => {
                matches!(source, Vertex::Observation(_)) && matches!(target, Vertex::State(_))
            },
            Relation::Supports => {
                matches!(source, Vertex::Observation(_)) && matches!(target, Vertex::Identity(_))
            },
            Relation::Refines | Relation::AssociatedWith => {
                matches!(source, Vertex::Identity(_)) && matches!(target, Vertex::Identity(_))
                    && *source != *target
            },
        }
    }
}

/// The two relation layers partition the relation set: every relation is in
/// exactly one of `R_eskg` and `R_LI`.
pub proof fn law_relation_layers_partition(relation: Relation)
    ensures
        spec_is_eskg(relation) != !spec_is_eskg(relation),
        spec_is_eskg(relation) <==> (relation == Relation::Trigger || relation == Relation::Lead
            || relation == Relation::Evolution || relation == Relation::Contain || relation
            == Relation::Occur || relation == Relation::Influence),
{
}

/// Causal relations only ever connect events and states, so every valid
/// causal edge lies inside the event-state subgraph.
pub proof fn law_causal_edges_stay_in_event_state_subgraph(
    relation: Relation,
    source: Vertex,
    target: Vertex,
)
    requires
        spec_is_eskg(relation),
        spec_valid_transition(relation, source, target),
    ensures
        source is Event || source is State,
        target is Event || target is State,
{
}

/// No relation whose endpoints share a partition admits a self-loop: a
/// vertex can be related to itself only across partitions, which is
/// impossible.
pub proof fn law_no_valid_self_loops(relation: Relation, vertex: Vertex)
    ensures
        !spec_valid_transition(relation, vertex, vertex),
{
}

} // verus!
