//! Read-only queries over a knowledge graph that borrow instead of copying.
use crate::graph::PetGraphStore;
use crate::ids::IdentityId;
use crate::observation::Observation;
use crate::ontology::Vertex;
use crate::relation::Relation;
use vstd::prelude::*;

verus! {

/// Support set `supp(i)` of an identity, borrowed.
pub trait SupportSetQuery<P> {
    /// Whether the graph is well formed, for specifications.
    spec fn support_queryable(&self) -> bool;

    /// The observations supporting `identity`; none for an unknown one.
    fn query_support_set(&self, identity: IdentityId) -> Vec<&Observation<P>>
        requires
            self.support_queryable(),
    ;
}

/// Outgoing neighbourhood of a vertex.
pub trait NeighborhoodQuery {
    /// Whether the graph is well formed, for specifications.
    spec fn neighborhood_queryable(&self) -> bool;

    /// The relations leaving `vertex` as (source, relation, target).
    fn out_edges(&self, vertex: Vertex) -> Vec<(Vertex, Relation, Vertex)>
        requires
            self.neighborhood_queryable(),
    ;
}

/// The set of active identities.
pub trait IdentitySetQuery {
    /// Every registered identity once.
    fn all_identities(&self) -> Vec<IdentityId>;
}

impl<P, E, S> SupportSetQuery<P> for PetGraphStore<P, E, S> {
    open spec fn support_queryable(&self) -> bool {
        self.inv()
    }

    fn query_support_set(&self, identity: IdentityId) -> (support: Vec<&Observation<P>>)
        ensures
            !self.view().contains_vertex(Vertex::Identity(identity)) ==> support@.len() == 0,
            forall|k: int|
                0 <= k < support@.len() ==> {
                    &&& self.view().observations.contains_key((#[trigger] support@[k]).id.0)
                    &&& *support@[k] == self.view().observations[support@[k].id.0]
                    &&& self.view().supports(support@[k].id, identity)
                },
            forall|a: int, b: int|
                0 <= a < b < support@.len() ==> (#[trigger] support@[a]).id != (#[trigger] support@[b]).id,
            forall|o: crate::ids::ObservationId|
                #[trigger] self.view().supports(o, identity) ==> support@.map_values(
                    |x: &Observation<P>| x.id,
                ).contains(o),
    {
        match self.supporting_observations(identity) {
            Ok(support) => support,
            Err(_) => Vec::new(),
        }
    }
}

impl<P, E, S> NeighborhoodQuery for PetGraphStore<P, E, S> {
    open spec fn neighborhood_queryable(&self) -> bool {
        self.inv()
    }

    fn out_edges(&self, vertex: Vertex) -> (relations: Vec<(Vertex, Relation, Vertex)>)
        ensures
            forall|k: int|
                0 <= k < relations@.len() ==> (#[trigger] relations@[k]).0 == vertex
                    && self.view().has_relation(vertex, relations@[k].1, relations@[k].2),
            relations@.no_duplicates(),
            forall|relation: Relation, target: Vertex|
                #[trigger] self.view().has_relation(vertex, relation, target) ==> relations@.contains(
                    (vertex, relation, target),
                ),
    {
        self.out_relations(vertex)
    }
}

impl<P, E, S> IdentitySetQuery for PetGraphStore<P, E, S> {
    fn all_identities(&self) -> (ids: Vec<IdentityId>)
        ensures
            ids@.no_duplicates(),
            forall|k: int| 0 <= k < ids@.len() ==> self.view().identities.contains_key(#[trigger] ids@[k].0),
            forall|raw: u64| #[trigger] self.view().identities.contains_key(raw) ==> ids@.contains(IdentityId(raw)),
    {
        self.identity_ids()
    }
}

} // verus!
