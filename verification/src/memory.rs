//! In-memory graph representation over ordered maps.
use crate::graph::KnowledgeGraph;
use crate::graph_ontology::{Edge, EventNode, IdentityNode, StateNode};
use crate::ids::IdentityId;
use crate::observation::Observation;
use crate::ontology::Vertex;
use crate::operations::GraphOperation;
use crate::relation::Relation;
use core::convert::Infallible;
use std::collections::BTreeMap;
use vstd::prelude::*;
use vstd::std_specs::iter::IteratorSpec;

verus! {

broadcast use vstd::std_specs::btree::group_btree_axioms, vstd::laws_cmp::group_laws_cmp;

/// Abstract state of a knowledge graph: node payloads keyed by raw
/// identifier within each partition, and the set of relations.
pub struct GraphView<P, E, S> {
    /// Observation partition.
    pub observations: Map<u64, Observation<P>>,
    /// Identity partition.
    pub identities: Map<u64, IdentityNode>,
    /// Event partition.
    pub events: Map<u64, EventNode<E>>,
    /// State partition.
    pub states: Map<u64, StateNode<S>>,
    /// Relations, in commit order, without repetition.
    pub edges: Seq<Edge>,
}

/// Whether a vertex is committed in a graph state.
pub open spec fn view_contains_vertex<P, E, S>(v: GraphView<P, E, S>, vertex: Vertex) -> bool {
    match vertex {
        Vertex::Observation(id) => v.observations.contains_key(id.0),
        Vertex::Identity(id) => v.identities.contains_key(id.0),
        Vertex::Event(id) => v.events.contains_key(id.0),
        Vertex::State(id) => v.states.contains_key(id.0),
    }
}

/// The relation set after adding `edge`: unchanged when already present.
pub open spec fn insert_edge(edges: Seq<Edge>, edge: Edge) -> Seq<Edge> {
    if edges.contains(edge) {
        edges
    } else {
        edges.push(edge)
    }
}

/// The graph state after committing one operation. Commits are upserts;
/// identity merges leave this additive store unchanged.
pub open spec fn apply_op<P, E, S>(v: GraphView<P, E, S>, op: GraphOperation<P, E, S>) -> GraphView<
    P,
    E,
    S,
> {
    match op {
        GraphOperation::CommitObservation(obs) => GraphView {
            observations: v.observations.insert(obs.id.0, obs),
            ..v
        },
        GraphOperation::CommitIdentity { id, created_at } => GraphView {
            identities: v.identities.insert(id.0, IdentityNode { id, created_at }),
            ..v
        },
        GraphOperation::CommitEvent { id, timestamp, payload } => GraphView {
            events: v.events.insert(id.0, EventNode { id, timestamp, payload }),
            ..v
        },
        GraphOperation::CommitState { id, timestamp, payload } => GraphView {
            states: v.states.insert(id.0, StateNode { id, timestamp, payload }),
            ..v
        },
        GraphOperation::CommitRelation { source, relation, target, created_at } => GraphView {
            edges: insert_edge(v.edges, Edge { source, relation, target, created_at }),
            ..v
        },
        GraphOperation::MergeIdentities { .. } => v,
    }
}

/// The graph state after committing a sequence of operations in order.
pub open spec fn apply_ops<P, E, S>(
    v: GraphView<P, E, S>,
    ops: Seq<GraphOperation<P, E, S>>,
) -> GraphView<P, E, S>
    decreases ops.len(),
{
    if ops.len() == 0 {
        v
    } else {
        apply_op(apply_ops(v, ops.drop_last()), ops.last())
    }
}

/// Whether an edge is a `Supports` relation into `identity` from an
/// observation committed in the graph.
pub open spec fn supports_into<P, E, S>(v: GraphView<P, E, S>, identity: IdentityId, e: Edge) -> bool {
    &&& e.relation == Relation::Supports
    &&& e.target == Vertex::Identity(identity)
    &&& e.source is Observation
    &&& v.observations.contains_key(e.source->Observation_0.0)
}

/// The supporting observations of an identity, following relation order.
pub open spec fn support_set<P, E, S>(v: GraphView<P, E, S>, identity: IdentityId) -> Seq<
    Observation<P>,
> {
    v.edges.filter(|e: Edge| supports_into(v, identity, e)).map_values(
        |e: Edge| v.observations[e.source->Observation_0.0],
    )
}

/// Concrete in-memory knowledge graph; committed operations are upserts.
#[derive(Debug)]
pub struct MemoryGraph<P, E, S> {
    observations: BTreeMap<u64, Observation<P>>,
    identities: BTreeMap<u64, IdentityNode>,
    events: BTreeMap<u64, EventNode<E>>,
    states: BTreeMap<u64, StateNode<S>>,
    edges: Vec<Edge>,
}

impl<P, E, S> MemoryGraph<P, E, S> {
    /// The abstract graph state.
    pub closed spec fn view(&self) -> GraphView<P, E, S> {
        GraphView {
            observations: self.observations@,
            identities: self.identities@,
            events: self.events@,
            states: self.states@,
            edges: self.edges@,
        }
    }

    /// Relations are never stored twice.
    pub closed spec fn inv(&self) -> bool {
        self.edges@.no_duplicates()
    }

    /// Creates an empty graph.
    pub fn new() -> (graph: Self)
        ensures
            graph.inv(),
            graph.view().observations == Map::<u64, Observation<P>>::empty(),
            graph.view().identities == Map::<u64, IdentityNode>::empty(),
            graph.view().events == Map::<u64, EventNode<E>>::empty(),
            graph.view().states == Map::<u64, StateNode<S>>::empty(),
            graph.view().edges == Seq::<Edge>::empty(),
    {
        MemoryGraph {
            observations: BTreeMap::new(),
            identities: BTreeMap::new(),
            events: BTreeMap::new(),
            states: BTreeMap::new(),
            edges: Vec::new(),
        }
    }

    fn contains_edge(&self, edge: &Edge) -> (found: bool)
        ensures
            found == self.view().edges.contains(*edge),
    {
        let mut i: usize = 0;
        while i < self.edges.len()
            invariant
                i <= self.edges@.len(),
                forall|k: int| 0 <= k < i ==> self.edges@[k] != *edge,
            decreases self.edges@.len() - i,
        {
            if self.edges[i] == *edge {
                return true;
            }
            i += 1;
        }
        false
    }

    fn commit_op(&mut self, op: GraphOperation<P, E, S>)
        requires
            old(self).inv(),
        ensures
            final(self).inv(),
            final(self).view() == apply_op(old(self).view(), op),
    {
        match op {
            GraphOperation::CommitObservation(obs) => {
                self.observations.insert(obs.id.0, obs);
            },
            GraphOperation::CommitIdentity { id, created_at } => {
                self.identities.insert(id.0, IdentityNode { id, created_at });
            },
            GraphOperation::CommitEvent { id, timestamp, payload } => {
                self.events.insert(id.0, EventNode { id, timestamp, payload });
            },
            GraphOperation::CommitState { id, timestamp, payload } => {
                self.states.insert(id.0, StateNode { id, timestamp, payload });
            },
            GraphOperation::CommitRelation { source, relation, target, created_at } => {
                let edge = Edge { source, relation, target, created_at };
                if !self.contains_edge(&edge) {
                    self.edges.push(edge);
                    proof {
                        assert forall|a: int, b: int|
                            0 <= a < b < self.edges@.len() implies self.edges@[a]
                            != self.edges@[b] by {
                            if b == self.edges@.len() - 1 {
                                assert(old(self).edges@.contains(old(self).edges@[a]));
                            }
                        }
                    }
                }
            },
            GraphOperation::MergeIdentities { .. } => {},
        }
    }

    /// Commits a batch of operations in order.
    pub fn commit_batch(&mut self, ops: Vec<GraphOperation<P, E, S>>)
        requires
            old(self).inv(),
        ensures
            final(self).inv(),
            final(self).view() == apply_ops(old(self).view(), ops@),
    {
        let ghost start = self.view();
        let ghost all = ops@;
        assert(all.len() == ops.len());
        let mut rest = ops;
        let mut done: usize = 0;
        while rest.len() > 0
            invariant
                self.inv(),
                done + rest@.len() == all.len(),
                all.len() <= usize::MAX,
                rest@ == all.skip(done as int),
                self.view() == apply_ops(start, all.take(done as int)),
            decreases rest@.len(),
        {
            let op = rest.remove(0);
            proof {
                assert(op == all[done as int]);
                assert(all.take(done as int + 1).drop_last() =~= all.take(done as int));
                assert(rest@ =~= all.skip(done as int + 1));
            }
            self.commit_op(op);
            done += 1;
        }
        assert(all.take(done as int) =~= all);
    }

    /// Reports whether a vertex is committed.
    pub fn lookup_vertex(&self, vertex: Vertex) -> (found: Option<Vertex>)
        ensures
            view_contains_vertex(self.view(), vertex) ==> found == Some(vertex),
            !view_contains_vertex(self.view(), vertex) ==> found is None,
    {
        let present = match vertex {
            Vertex::Observation(id) => self.observations.contains_key(&id.0),
            Vertex::Identity(id) => self.identities.contains_key(&id.0),
            Vertex::Event(id) => self.events.contains_key(&id.0),
            Vertex::State(id) => self.states.contains_key(&id.0),
        };
        if present {
            Some(vertex)
        } else {
            None
        }
    }

    /// Relations leaving `source`, in commit order.
    pub fn out_edges(&self, source: Vertex) -> (edges: Vec<Edge>)
        ensures
            edges@ == self.view().edges.filter(|e: Edge| e.source == source),
    {
        let mut result: Vec<Edge> = Vec::new();
        let mut i: usize = 0;
        while i < self.edges.len()
            invariant
                i <= self.edges@.len(),
                result@ == self.edges@.take(i as int).filter(|e: Edge| e.source == source),
            decreases self.edges@.len() - i,
        {
            proof {
                assert(self.edges@.take(i as int + 1).drop_last() =~= self.edges@.take(i as int));
                reveal(Seq::filter);
            }
            if self.edges[i].source == source {
                result.push(self.edges[i]);
            }
            i += 1;
        }
        assert(self.edges@.take(i as int) =~= self.edges@);
        result
    }

    /// Relations entering `target`, in commit order.
    pub fn in_edges(&self, target: Vertex) -> (edges: Vec<Edge>)
        ensures
            edges@ == self.view().edges.filter(|e: Edge| e.target == target),
    {
        let mut result: Vec<Edge> = Vec::new();
        let mut i: usize = 0;
        while i < self.edges.len()
            invariant
                i <= self.edges@.len(),
                result@ == self.edges@.take(i as int).filter(|e: Edge| e.target == target),
            decreases self.edges@.len() - i,
        {
            proof {
                assert(self.edges@.take(i as int + 1).drop_last() =~= self.edges@.take(i as int));
                reveal(Seq::filter);
            }
            if self.edges[i].target == target {
                result.push(self.edges[i]);
            }
            i += 1;
        }
        assert(self.edges@.take(i as int) =~= self.edges@);
        result
    }

    /// Borrows the observations supporting `identity`, following relation
    /// order.
    pub fn support_set(&self, identity: IdentityId) -> (support: Vec<&Observation<P>>)
        ensures
            support@.len() == support_set(self.view(), identity).len(),
            forall|k: int|
                0 <= k < support@.len() ==> *#[trigger] support@[k] == support_set(
                    self.view(),
                    identity,
                )[k],
    {
        let ghost v = self.view();
        let ghost pred = |e: Edge| supports_into(v, identity, e);
        let mut result: Vec<&Observation<P>> = Vec::new();
        let mut i: usize = 0;
        while i < self.edges.len()
            invariant
                v == self.view(),
                pred == (|e: Edge| supports_into(v, identity, e)),
                i <= self.edges@.len(),
                result@.len() == self.edges@.take(i as int).filter(pred).len(),
                forall|k: int|
                    0 <= k < result@.len() ==> *#[trigger] result@[k] == v.observations[self.edges@.take(
                        i as int,
                    ).filter(pred)[k].source->Observation_0.0],
            decreases self.edges@.len() - i,
        {
            proof {
                assert(self.edges@.take(i as int + 1).drop_last() =~= self.edges@.take(i as int));
                reveal(Seq::filter);
            }
            let edge = self.edges[i];
            if edge.relation == Relation::Supports && edge.target == Vertex::Identity(identity) {
                match edge.source {
                    Vertex::Observation(oid) => {
                        match self.observations.get(&oid.0) {
                            Some(obs) => {
                                result.push(obs);
                            },
                            None => {},
                        }
                    },
                    _ => {},
                }
            }
            i += 1;
        }
        assert(self.edges@.take(i as int) =~= self.edges@);
        result
    }

    /// Identifiers of all committed identities, each exactly once.
    pub fn identity_ids(&self) -> (ids: Vec<IdentityId>)
        ensures
            ids@.len() == self.view().identities.dom().len(),
            forall|k: int| 0 <= k < ids@.len() ==> self.view().identities.contains_key(#[trigger] ids@[k].0),
            forall|raw: u64| self.view().identities.contains_key(raw) ==> ids@.contains(IdentityId(raw)),
            ids@.no_duplicates(),
    {
        let ghost keys = vstd::std_specs::btree::spec_keys_iter(&self.identities).remaining();
        let mut result: Vec<IdentityId> = Vec::new();
        for key in it: self.identities.keys()
            invariant
                keys == vstd::std_specs::btree::spec_keys_iter(&self.identities).remaining(),
                it.seq() == keys,
                result@.len() == it.index(),
                forall|k: int| 0 <= k < it.index() ==> result@[k].0 == *keys[k],
        {
            result.push(IdentityId(*key));
        }
        proof {
            assert(keys.len() == result@.len());
            assert forall|k: int| 0 <= k < result@.len() implies self.view().identities.contains_key(#[trigger] result@[k].0) by {
                assert(keys.unref()[k] == *keys[k]);
                assert(keys.unref().to_set().contains(keys.unref()[k]));
            }
            assert forall|a: int, b: int| 0 <= a < b < result@.len() implies result@[a] != result@[b] by {
                assert(keys.unref()[a] == *keys[a]);
                assert(keys.unref()[b] == *keys[b]);
                assert(keys.unref().no_duplicates());
            }
            assert forall|raw: u64| self.view().identities.contains_key(raw) implies result@.contains(IdentityId(raw)) by {
                assert(keys.unref().to_set().contains(raw));
                let k = choose|k: int| 0 <= k < keys.unref().len() && keys.unref()[k] == raw;
                assert(keys.unref()[k] == *keys[k]);
                assert(result@[k] == IdentityId(raw));
            }
        }
        result
    }
}

impl<P, E, S> KnowledgeGraph for MemoryGraph<P, E, S> {
    type ObservationPayload = P;
    type EventPayload = E;
    type StatePayload = S;
    type Error = Infallible;

    open spec fn well_formed(&self) -> bool {
        self.inv()
    }

    open spec fn admits_batch(&self, len: nat) -> bool {
        self.inv()
    }

    fn vertex_type(&self, vertex: Vertex) -> (result: Result<Option<Vertex>, Infallible>)
        ensures
            view_contains_vertex(self.view(), vertex) ==> result == Ok::<Option<Vertex>, Infallible>(
                Some(vertex),
            ),
            !view_contains_vertex(self.view(), vertex) ==> result == Ok::<Option<Vertex>, Infallible>(
                None,
            ),
    {
        Ok(self.lookup_vertex(vertex))
    }

    fn apply_batch(&mut self, ops: Vec<GraphOperation<P, E, S>>) -> (result: Result<(), Infallible>)
        ensures
            result is Ok,
            final(self).view() == apply_ops(old(self).view(), ops@),
    {
        self.commit_batch(ops);
        Ok(())
    }

    fn query_support_set(&self, identity: IdentityId) -> (result: Result<Vec<Observation<P>>, Infallible>) where P: Clone
        ensures
            result matches Ok(support) && support@.len() == support_set(self.view(), identity).len() && (forall|k: int|
                0 <= k < support@.len() ==> (#[trigger] support@[k]).id == support_set(self.view(), identity)[k].id
                    && support@[k].modality == support_set(self.view(), identity)[k].modality
                    && support@[k].timestamp == support_set(self.view(), identity)[k].timestamp
                    && cloned(support_set(self.view(), identity)[k].payload, support@[k].payload)),
    {
        let borrowed = self.support_set(identity);
        let mut owned: Vec<Observation<P>> = Vec::new();
        let mut k: usize = 0;
        while k < borrowed.len()
            invariant
                k <= borrowed@.len(),
                owned@.len() == k,
                forall|m: int|
                    0 <= m < k ==> (#[trigger] owned@[m]).id == borrowed@[m].id && owned@[m].modality
                        == borrowed@[m].modality && owned@[m].timestamp == borrowed@[m].timestamp
                        && cloned(borrowed@[m].payload, owned@[m].payload),
            decreases borrowed@.len() - k,
        {
            owned.push(borrowed[k].clone());
            k += 1;
        }
        Ok(owned)
    }

    fn all_identities(&self) -> (result: Result<Vec<IdentityId>, Infallible>)
        ensures
            result matches Ok(ids) && ids@.no_duplicates() && ids@.len() == self.view().identities.dom().len(),
    {
        Ok(self.identity_ids())
    }
}

} // verus!
