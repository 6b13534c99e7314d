//! Transactional knowledge graph `G = (V, R)` over a `petgraph` stable
//! graph: typed vertices with their payloads, schema-checked relations,
//! atomic batches and identity canonicalization.
use crate::graph_ontology::{Edge, EdgeData, EventNode, NodeData, StateNode};
use crate::ids::{EventId, IdentityId, ObservationId, StateId};
use crate::observation::{Observation, Timestamp};
use crate::ontology::Vertex;
use crate::operations::{GraphOperation, IdentityAssignment};
use crate::invariants::InvariantViolation;
use crate::raw_graph::{
    graph_edges, graph_nodes, is_causal_walk, raw_edge_references, raw_has_causal_cycle, raw_node_indices, raw_add_edge, raw_add_node, raw_edge_count, raw_edges_directed,
    raw_node_count, raw_node_weight, raw_remove_edge, raw_remove_node, raw_reserve_edges, raw_reserve_nodes, raw_with_capacity, touches,
};
use crate::raw_buffers::{
    journal_items, journal_len, journal_new, journal_pop, journal_push, rewire_as_slice, rewire_items, rewire_new,
    rewire_push, RewireBuffer, UndoJournal,
};
use crate::relation::{spec_is_eskg, spec_valid_transition, Relation};
use petgraph::stable_graph::StableGraph;
use petgraph::Directed;
use std::collections::BTreeMap;
use vstd::prelude::*;
use vstd::std_specs::iter::IteratorSpec;

verus! {

broadcast use vstd::std_specs::btree::group_btree_axioms, vstd::laws_cmp::group_laws_cmp;

/// Statistics of one identity canonicalization.
#[derive(Debug, Clone, Copy, PartialEq, Eq, Structural)]
pub struct MergeOutcome {
    /// Relations moved from the duplicate to the canonical identity.
    pub rewired_relations: usize,
    /// Relations dropped because the canonical identity already had them.
    pub coalesced_relations: usize,
}

/// Structural errors of graph state transitions.
#[derive(Debug, Clone, Copy, PartialEq, Eq, Structural)]
pub enum GraphError {
    /// The relation's schema does not admit these endpoint kinds.
    InvalidRelationTransition {
        /// Relation requested.
        relation: Relation,
        /// Origin vertex.
        source: Vertex,
        /// Destination vertex.
        target: Vertex,
    },
    /// A referenced vertex is not in the graph.
    VertexNotFound {
        /// Missing vertex.
        vertex: Vertex,
    },
    /// The vertex is already registered.
    DuplicateVertex {
        /// Registered vertex.
        vertex: Vertex,
    },
    /// The relation already exists between the two vertices.
    DuplicateRelation {
        /// Origin vertex of the existing relation.
        origin: Vertex,
        /// Existing relation.
        relation: Relation,
        /// Destination vertex of the existing relation.
        target: Vertex,
    },
    /// The observation already supports an identity.
    ObservationAlreadyAssigned {
        /// Observation with an existing support owner.
        observation: ObservationId,
        /// Existing support owner.
        identity: IdentityId,
    },
    /// An identity cannot be merged into itself.
    SelfIdentityMerge {
        /// Identity given in both roles.
        identity: IdentityId,
    },
    /// A merge must be the only operation of its batch.
    MergeOperationMustBeIsolated,
    /// The vertex index and the graph disagree.
    CorruptIndex {
        /// Vertex whose indexed node is absent or of another vertex.
        vertex: Vertex,
    },
}

/// Logical content of a knowledge graph: payloads of the four vertex
/// partitions keyed by raw identifier, and the set of relations.
pub struct StoreView<P, E, S> {
    /// Observation partition.
    pub observations: Map<u64, Observation<P>>,
    /// Identity partition with creation times.
    pub identities: Map<u64, Timestamp>,
    /// Event partition.
    pub events: Map<u64, EventNode<E>>,
    /// State partition.
    pub states: Map<u64, StateNode<S>>,
    /// Relations between vertices.
    pub relations: Set<Edge>,
}

impl<P, E, S> StoreView<P, E, S> {
    /// Whether `vertex` is registered.
    pub open spec fn contains_vertex(self, vertex: Vertex) -> bool {
        match vertex {
            Vertex::Observation(id) => self.observations.contains_key(id.0),
            Vertex::Identity(id) => self.identities.contains_key(id.0),
            Vertex::Event(id) => self.events.contains_key(id.0),
            Vertex::State(id) => self.states.contains_key(id.0),
        }
    }

    /// Whether some relation `relation` goes from `source` to `target`.
    pub open spec fn has_relation(self, source: Vertex, relation: Relation, target: Vertex) -> bool {
        exists|x: Edge|
            #![trigger self.relations.contains(x)]
            self.relations.contains(x) && x.source == source && x.relation == relation && x.target
                == target
    }

    /// Whether `x` is a support relation leaving `source`.
    pub open spec fn is_support_from(self, x: Edge, source: Vertex) -> bool {
        &&& self.relations.contains(x)
        &&& x.source == source
        &&& x.relation == Relation::Supports
        &&& x.target is Identity
    }

    /// The identity an observation vertex already supports, if any.
    pub open spec fn support_owner(self, source: Vertex) -> Option<IdentityId> {
        if exists|x: Edge| #[trigger] self.is_support_from(x, source) {
            Some((choose|x: Edge| #[trigger] self.is_support_from(x, source)).target->Identity_0)
        } else {
            None
        }
    }

    /// Whether observation `observation` supports identity `identity`.
    pub open spec fn supports(self, observation: ObservationId, identity: IdentityId) -> bool {
        exists|x: Edge|
            #![trigger self.relations.contains(x)]
            self.relations.contains(x) && x.source == Vertex::Observation(observation) && x.relation
                == Relation::Supports && x.target == Vertex::Identity(identity)
    }

    /// Whether some relation `relation` leaves `source` for `target`.
    pub open spec fn has_out_relation(self, source: Vertex, relation: Relation, target: Vertex) -> bool {
        self.has_relation(source, relation, target)
    }

    /// Whether `walk` is a closed chain of causal relations: each ends where
    /// the next begins and the last ends where the first begins.
    pub open spec fn is_causal_cycle(self, walk: Seq<Edge>) -> bool {
        &&& walk.len() > 0
        &&& forall|k: int|
            0 <= k < walk.len() ==> self.relations.contains(#[trigger] walk[k]) && spec_is_eskg(
                walk[k].relation,
            )
        &&& forall|k: int, l: int|
            #![trigger walk[k], walk[l]]
            0 <= k && l == k + 1 && l < walk.len() ==> walk[k].target == walk[l].source
        &&& walk[walk.len() - 1].target == walk[0].source
    }

    /// Whether the causal relations contain a directed cycle.
    pub open spec fn has_causal_cycle(self) -> bool {
        exists|walk: Seq<Edge>| #[trigger] self.is_causal_cycle(walk)
    }

    /// Whether some observation supports identity `identity`.
    pub open spec fn is_supported(self, identity: IdentityId) -> bool {
        exists|o: ObservationId| #[trigger] self.supports(o, identity)
    }

    /// Whether support partitions the observations: every observation
    /// supports an identity (never two, by construction) and every identity
    /// has a supporting observation.
    pub open spec fn observations_partitioned(self) -> bool {
        &&& forall|raw: u64|
            #[trigger] self.observations.contains_key(raw) ==> self.support_owner(
                Vertex::Observation(ObservationId(raw)),
            ) is Some
        &&& forall|raw: u64| #[trigger] self.identities.contains_key(raw) ==> self.is_supported(IdentityId(raw))
    }

    /// The state after registering an identity.
    pub open spec fn with_identity(self, id: IdentityId, created_at: Timestamp) -> Self {
        StoreView { identities: self.identities.insert(id.0, created_at), ..self }
    }

    /// The state after adding a relation.
    pub open spec fn with_relation(self, edge: Edge) -> Self {
        StoreView { relations: self.relations.insert(edge), ..self }
    }
}

/// Whether a relation is moved when identity vertex `duplicate` is folded
/// into `target`: it has `duplicate` at one end and neither vertex at the
/// other.
pub open spec fn is_moved(x: Edge, duplicate: Vertex, target: Vertex) -> bool {
    ||| x.target == duplicate && x.source != target && x.source != duplicate
    ||| x.source == duplicate && x.target != target && x.target != duplicate
}

/// A moved relation with its `duplicate` end replaced by `target`.
pub open spec fn rewired(x: Edge, duplicate: Vertex, target: Vertex) -> Edge {
    if x.target == duplicate {
        Edge { target, ..x }
    } else {
        Edge { source: target, ..x }
    }
}

/// Whether `relations` joins the endpoints of `y` by the relation of `y`,
/// whatever its creation time.
pub open spec fn has_key(relations: Set<Edge>, y: Edge) -> bool {
    exists|k: Edge|
        #![trigger relations.contains(k)]
        relations.contains(k) && k.source == y.source && k.relation == y.relation && k.target
            == y.target
}

impl<P, E, S> StoreView<P, E, S> {
    /// Relations that a merge away from `duplicate` keeps unchanged.
    pub open spec fn kept_after_merge(self, duplicate: Vertex) -> Set<Edge> {
        Set::new(|x: Edge| self.relations.contains(x) && x.source != duplicate && x.target != duplicate)
    }

    /// Relations that a merge of `duplicate` into `target` moves, rewired.
    pub open spec fn moved_by_merge(self, duplicate: Vertex, target: Vertex) -> Set<Edge> {
        Set::new(
            |y: Edge|
                exists|x: Edge|
                    #![trigger self.relations.contains(x)]
                    self.relations.contains(x) && is_moved(x, duplicate, target) && y == rewired(
                        x,
                        duplicate,
                        target,
                    ),
        )
    }

    /// Moved relations that the target did not already have.
    pub open spec fn added_by_merge(self, duplicate: Vertex, target: Vertex) -> Set<Edge> {
        Set::new(
            |y: Edge|
                self.moved_by_merge(duplicate, target).contains(y) && !has_key(
                    self.kept_after_merge(duplicate),
                    y,
                ),
        )
    }

    /// The state after folding identity `duplicate` into `target`: the
    /// duplicate disappears, relations between the two or away from the
    /// duplicate are dropped or moved, and a moved relation the target
    /// already had is coalesced.
    pub open spec fn merged(self, target: IdentityId, duplicate: IdentityId) -> Self {
        let d = Vertex::Identity(duplicate);
        let t = Vertex::Identity(target);
        StoreView {
            identities: self.identities.remove(duplicate.0),
            relations: self.kept_after_merge(d).union(self.added_by_merge(d, t)),
            ..self
        }
    }

    /// The error that refuses merging `duplicate` into `target`, if any.
    pub open spec fn merge_error(self, target: IdentityId, duplicate: IdentityId) -> Option<GraphError> {
        if target == duplicate {
            Some(GraphError::SelfIdentityMerge { identity: target })
        } else if !self.contains_vertex(Vertex::Identity(target)) {
            Some(GraphError::VertexNotFound { vertex: Vertex::Identity(target) })
        } else if !self.contains_vertex(Vertex::Identity(duplicate)) {
            Some(GraphError::VertexNotFound { vertex: Vertex::Identity(duplicate) })
        } else {
            None
        }
    }
}

/// The outcome of committing one operation: the new state, or the error
/// that refuses it.
pub open spec fn spec_step<P, E, S>(view: StoreView<P, E, S>, op: GraphOperation<P, E, S>) -> Result<
    StoreView<P, E, S>,
    GraphError,
> {
    match op {
        GraphOperation::CommitObservation(obs) => {
            if view.contains_vertex(Vertex::Observation(obs.id)) {
                Err(GraphError::DuplicateVertex { vertex: Vertex::Observation(obs.id) })
            } else {
                Ok(StoreView { observations: view.observations.insert(obs.id.0, obs), ..view })
            }
        },
        GraphOperation::CommitIdentity { id, created_at } => {
            if view.contains_vertex(Vertex::Identity(id)) {
                Err(GraphError::DuplicateVertex { vertex: Vertex::Identity(id) })
            } else {
                Ok(view.with_identity(id, created_at))
            }
        },
        GraphOperation::CommitEvent { id, timestamp, payload } => {
            if view.contains_vertex(Vertex::Event(id)) {
                Err(GraphError::DuplicateVertex { vertex: Vertex::Event(id) })
            } else {
                Ok(
                    StoreView {
                        events: view.events.insert(id.0, EventNode { id, timestamp, payload }),
                        ..view
                    },
                )
            }
        },
        GraphOperation::CommitState { id, timestamp, payload } => {
            if view.contains_vertex(Vertex::State(id)) {
                Err(GraphError::DuplicateVertex { vertex: Vertex::State(id) })
            } else {
                Ok(
                    StoreView {
                        states: view.states.insert(id.0, StateNode { id, timestamp, payload }),
                        ..view
                    },
                )
            }
        },
        GraphOperation::CommitRelation { source, relation, target, created_at } => {
            if !spec_valid_transition(relation, source, target) {
                Err(GraphError::InvalidRelationTransition { relation, source, target })
            } else if !view.contains_vertex(source) {
                Err(GraphError::VertexNotFound { vertex: source })
            } else if !view.contains_vertex(target) {
                Err(GraphError::VertexNotFound { vertex: target })
            } else if relation == Relation::Supports && view.support_owner(source) is Some {
                Err(
                    GraphError::ObservationAlreadyAssigned {
                        observation: source->Observation_0,
                        identity: view.support_owner(source)->Some_0,
                    },
                )
            } else if view.has_relation(source, relation, target) {
                Err(GraphError::DuplicateRelation { origin: source, relation, target })
            } else {
                Ok(view.with_relation(Edge { source, relation, target, created_at }))
            }
        },
        GraphOperation::MergeIdentities { .. } => Err(GraphError::MergeOperationMustBeIsolated),
    }
}

/// The outcome of committing operations in order, stopping at the first
/// refused one.
pub open spec fn spec_run<P, E, S>(view: StoreView<P, E, S>, ops: Seq<GraphOperation<P, E, S>>) -> Result<
    StoreView<P, E, S>,
    GraphError,
>
    decreases ops.len(),
{
    if ops.len() == 0 {
        Ok(view)
    } else {
        match spec_run(view, ops.drop_last()) {
            Ok(before) => spec_step(before, ops.last()),
            Err(error) => Err(error),
        }
    }
}

/// The batch committing an observation with its resolved identity.
pub open spec fn materialize_ops<P, E, S>(observation: Observation<P>, assignment: IdentityAssignment) -> Seq<GraphOperation<P, E, S>> {
    let relation = GraphOperation::CommitRelation {
        source: Vertex::Observation(observation.id),
        relation: Relation::Supports,
        target: Vertex::Identity(assigned_identity(assignment)),
        created_at: observation.timestamp,
    };
    match assignment {
        IdentityAssignment::Existing(_) => seq![GraphOperation::CommitObservation(observation), relation],
        IdentityAssignment::New(identity) => seq![
            GraphOperation::CommitObservation(observation),
            GraphOperation::CommitIdentity { id: identity, created_at: observation.timestamp },
            relation,
        ],
    }
}

/// The identity an assignment resolves to.
pub open spec fn assigned_identity(assignment: IdentityAssignment) -> IdentityId {
    match assignment {
        IdentityAssignment::Existing(identity) => identity,
        IdentityAssignment::New(identity) => identity,
    }
}

/// Concrete representation of a store, for specifications.
pub struct StoreRep<P, E, S> {
    /// Live graph nodes.
    pub nodes: Map<u32, Vertex>,
    /// Live graph edges.
    pub edges: Map<u32, (u32, u32, EdgeData)>,
    /// Observation index and payloads.
    pub observations: Map<u64, (u32, Observation<P>)>,
    /// Identity index and creation times.
    pub identities: Map<u64, (u32, Timestamp)>,
    /// Event index and payloads.
    pub events: Map<u64, (u32, EventNode<E>)>,
    /// State index and payloads.
    pub states: Map<u64, (u32, StateNode<S>)>,
}

/// Record of one applied step of a batch, enough to take it back.
#[derive(Debug, Clone, Copy)]
pub enum Undo {
    /// A vertex was registered at a fresh node index.
    Node {
        /// The registered vertex.
        vertex: Vertex,
        /// Its node index.
        index: u32,
    },
    /// A relation was added at this edge index.
    Edge(u32),
}

/// The representation before the step that `undo` records.
spec fn spec_undo<P, E, S>(rep: StoreRep<P, E, S>, undo: Undo) -> StoreRep<P, E, S> {
    match undo {
        Undo::Edge(e) => StoreRep { edges: rep.edges.remove(e), ..rep },
        Undo::Node { vertex, index } => {
            let edges = rep.edges.restrict(rep.edges.dom().filter(|e: u32| !touches(rep.edges, e, index)));
            let base = StoreRep { nodes: rep.nodes.remove(index), edges, ..rep };
            match vertex {
                Vertex::Observation(id) => StoreRep { observations: rep.observations.remove(id.0), ..base },
                Vertex::Identity(id) => StoreRep { identities: rep.identities.remove(id.0), ..base },
                Vertex::Event(id) => StoreRep { events: rep.events.remove(id.0), ..base },
                Vertex::State(id) => StoreRep { states: rep.states.remove(id.0), ..base },
            }
        },
    }
}

/// Whether the step recorded by `undo` is present in `rep`.
spec fn undo_applies<P, E, S>(rep: StoreRep<P, E, S>, undo: Undo) -> bool {
    match undo {
        Undo::Edge(e) => rep.edges.contains_key(e),
        Undo::Node { vertex, index } => rep.nodes.contains_key(index) && rep.index_of(vertex) == Some(
            index,
        ),
    }
}

/// The relation that a live edge stands for.
pub open spec fn edge_image(nodes: Map<u32, Vertex>, edge: (u32, u32, EdgeData)) -> Edge {
    Edge {
        source: nodes[edge.0],
        relation: edge.2.relation,
        target: nodes[edge.1],
        created_at: edge.2.created_at,
    }
}

impl<P, E, S> StoreRep<P, E, S> {
    /// The graph index of a registered vertex.
    pub open spec fn index_of(self, vertex: Vertex) -> Option<u32> {
        match vertex {
            Vertex::Observation(id) => if self.observations.contains_key(id.0) {
                Some(self.observations[id.0].0)
            } else {
                None
            },
            Vertex::Identity(id) => if self.identities.contains_key(id.0) {
                Some(self.identities[id.0].0)
            } else {
                None
            },
            Vertex::Event(id) => if self.events.contains_key(id.0) {
                Some(self.events[id.0].0)
            } else {
                None
            },
            Vertex::State(id) => if self.states.contains_key(id.0) {
                Some(self.states[id.0].0)
            } else {
                None
            },
        }
    }

    /// The logical content of the representation.
    pub open spec fn view(self) -> StoreView<P, E, S> {
        StoreView {
            observations: self.observations.map_values(|entry: (u32, Observation<P>)| entry.1),
            identities: self.identities.map_values(|entry: (u32, Timestamp)| entry.1),
            events: self.events.map_values(|entry: (u32, EventNode<E>)| entry.1),
            states: self.states.map_values(|entry: (u32, StateNode<S>)| entry.1),
            relations: Set::new(
                |x: Edge|
                    exists|e: u32|
                        #![trigger self.edges[e]]
                        self.edges.contains_key(e) && edge_image(self.nodes, self.edges[e]) == x,
            ),
        }
    }

    /// Every registered vertex sits at a live node holding that vertex.
    pub open spec fn index_sound(self) -> bool {
        &&& forall|raw: u64|
            #[trigger] self.observations.contains_key(raw) ==> self.nodes.contains_key(
                self.observations[raw].0,
            ) && self.nodes[self.observations[raw].0] == Vertex::Observation(ObservationId(raw))
                && self.observations[raw].1.id == ObservationId(raw)
        &&& forall|raw: u64|
            #[trigger] self.identities.contains_key(raw) ==> self.nodes.contains_key(
                self.identities[raw].0,
            ) && self.nodes[self.identities[raw].0] == Vertex::Identity(IdentityId(raw))
        &&& forall|raw: u64|
            #[trigger] self.events.contains_key(raw) ==> self.nodes.contains_key(self.events[raw].0)
                && self.nodes[self.events[raw].0] == Vertex::Event(EventId(raw))
                && self.events[raw].1.id == EventId(raw)
        &&& forall|raw: u64|
            #[trigger] self.states.contains_key(raw) ==> self.nodes.contains_key(self.states[raw].0)
                && self.nodes[self.states[raw].0] == Vertex::State(StateId(raw))
                && self.states[raw].1.id == StateId(raw)
    }

    /// Every live node is the indexed node of its vertex.
    pub open spec fn index_complete(self) -> bool {
        forall|i: u32|
            #[trigger] self.nodes.contains_key(i) ==> self.index_of(self.nodes[i]) == Some(i)
    }

    /// Edges join live nodes, respect the schema, never repeat a relation
    /// between two nodes, and an observation supports at most one identity.
    pub open spec fn edges_sound(self) -> bool {
        &&& forall|e: u32|
            #[trigger] self.edges.contains_key(e) ==> {
                &&& self.nodes.contains_key(self.edges[e].0)
                &&& self.nodes.contains_key(self.edges[e].1)
                &&& spec_valid_transition(
                    self.edges[e].2.relation,
                    self.nodes[self.edges[e].0],
                    self.nodes[self.edges[e].1],
                )
            }
        &&& forall|e1: u32, e2: u32|
            #![trigger self.edges[e1], self.edges[e2]]
            self.edges.contains_key(e1) && self.edges.contains_key(e2) && self.edges[e1].0
                == self.edges[e2].0 && self.edges[e1].2.relation == self.edges[e2].2.relation && (
            self.edges[e1].1 == self.edges[e2].1 || self.edges[e1].2.relation == Relation::Supports)
                ==> e1 == e2
    }

    /// Well-formedness of a representation.
    pub open spec fn wf(self) -> bool {
        &&& self.nodes.dom().finite()
        &&& self.edges.dom().finite()
        &&& self.index_sound()
        &&& self.index_complete()
        &&& self.edges_sound()
    }
}

/// Abstract persistent knowledge graph `G = (V, R)`.
pub trait KnowledgeGraph {
    /// Observation payload type.
    type ObservationPayload;
    /// Event payload type.
    type EventPayload;
    /// State payload type.
    type StatePayload;
    /// Error type of fallible operations.
    type Error;

    /// Well-formedness of the graph, for specifications.
    spec fn well_formed(&self) -> bool;

    /// Whether a batch of `len` operations fits the capacity of the
    /// representation, for specifications.
    spec fn admits_batch(&self, len: nat) -> bool;

    /// Reports whether a vertex is registered, returning it when it is.
    fn vertex_type(&self, vertex: Vertex) -> Result<Option<Vertex>, Self::Error>
        requires
            self.well_formed(),
    ;

    /// Applies a batch of operations in order.
    fn apply_batch(
        &mut self,
        ops: Vec<GraphOperation<Self::ObservationPayload, Self::EventPayload, Self::StatePayload>>,
    ) -> (result: Result<(), Self::Error>)
        requires
            old(self).admits_batch(ops@.len()),
        ensures
            final(self).well_formed(),
    ;

    /// The observations supporting an identity.
    fn query_support_set(&self, identity: IdentityId) -> Result<
        Vec<Observation<Self::ObservationPayload>>,
        Self::Error,
    > where Self::ObservationPayload: Clone
        requires
            self.well_formed(),
    ;

    /// All registered identities.
    fn all_identities(&self) -> Result<Vec<IdentityId>, Self::Error>
        requires
            self.well_formed(),
    ;
}

/// Knowledge graph stored in a `petgraph` stable graph: the graph holds the
/// typed vertex of every node and the payload of every relation, and one
/// ordered map per vertex partition holds each vertex's node index and
/// payload.
pub struct PetGraphStore<P, E, S> {
    raw_graph: StableGraph<Vertex, EdgeData, Directed, u32>,
    observations: BTreeMap<u64, (u32, Observation<P>)>,
    identities: BTreeMap<u64, (u32, Timestamp)>,
    events: BTreeMap<u64, (u32, EventNode<E>)>,
    states: BTreeMap<u64, (u32, StateNode<S>)>,
}

/// Adding a fresh node that no edge touches leaves the relations as they
/// are, and removing it again restores the nodes and edges.
proof fn lemma_node_added<P, E, S>(r0: StoreRep<P, E, S>, r1: StoreRep<P, E, S>, index: u32, vertex: Vertex)
    requires
        r0.wf(),
        !r0.nodes.contains_key(index),
        r1.nodes == r0.nodes.insert(index, vertex),
        r1.edges == r0.edges,
    ensures
        r1.view().relations == r0.view().relations,
        r1.edges.restrict(r1.edges.dom().filter(|e: u32| !touches(r1.edges, e, index))) == r1.edges,
        r1.nodes.remove(index) == r0.nodes,
        r1.nodes.dom().finite(),
        r1.edges_sound(),
{
    assert forall|e: u32| #[trigger] r0.edges.contains_key(e) implies edge_image(r1.nodes, r0.edges[e])
        == edge_image(r0.nodes, r0.edges[e]) by {
        assert(r0.nodes.contains_key(r0.edges[e].0));
        assert(r0.nodes.contains_key(r0.edges[e].1));
    }
    assert(r1.view().relations =~= r0.view().relations) by {
        assert forall|x: Edge| r1.view().relations.contains(x) implies r0.view().relations.contains(x) by {
            let e = choose|e: u32| #![trigger r1.edges[e]] r1.edges.contains_key(e) && edge_image(r1.nodes, r1.edges[e]) == x;
            assert(r0.edges.contains_key(e));
        }
        assert forall|x: Edge| r0.view().relations.contains(x) implies r1.view().relations.contains(x) by {
            let e = choose|e: u32| #![trigger r0.edges[e]] r0.edges.contains_key(e) && edge_image(r0.nodes, r0.edges[e]) == x;
            assert(r1.edges.contains_key(e));
        }
    }
    assert(r1.edges.restrict(r1.edges.dom().filter(|e: u32| !touches(r1.edges, e, index))) =~= r1.edges) by {
        assert forall|e: u32| #[trigger] r1.edges.contains_key(e) implies !touches(r1.edges, e, index) by {
            assert(r0.nodes.contains_key(r0.edges[e].0));
        }
    }
    assert(r1.nodes.remove(index) =~= r0.nodes);
    assert forall|e: u32| #[trigger] r1.edges.contains_key(e) implies {
        &&& r1.nodes.contains_key(r1.edges[e].0)
        &&& r1.nodes.contains_key(r1.edges[e].1)
        &&& spec_valid_transition(r1.edges[e].2.relation, r1.nodes[r1.edges[e].0], r1.nodes[r1.edges[e].1])
    } by {
        assert(r0.edges.contains_key(e));
    }
}

/// Adding a fresh edge between live nodes adds its relation.
proof fn lemma_edge_added<P, E, S>(r0: StoreRep<P, E, S>, r1: StoreRep<P, E, S>, edge: u32, link: (u32, u32, EdgeData))
    requires
        !r0.edges.contains_key(edge),
        r1.nodes == r0.nodes,
        r1.edges == r0.edges.insert(edge, link),
    ensures
        r1.view().relations == r0.view().relations.insert(edge_image(r0.nodes, link)),
{
    let new_edge = edge_image(r0.nodes, link);
    assert(edge_image(r1.nodes, r1.edges[edge]) == new_edge);
    assert forall|x: Edge| r1.view().relations.contains(x) implies r0.view().relations.insert(new_edge).contains(x) by {
        let e = choose|e: u32| #![trigger r1.edges[e]] r1.edges.contains_key(e) && edge_image(r1.nodes, r1.edges[e]) == x;
        if e != edge {
            assert(r0.edges.contains_key(e));
        }
    }
    assert forall|x: Edge| r0.view().relations.insert(new_edge).contains(x) implies r1.view().relations.contains(x) by {
        if x != new_edge {
            let e = choose|e: u32| #![trigger r0.edges[e]] r0.edges.contains_key(e) && edge_image(r0.nodes, r0.edges[e]) == x;
            assert(r1.edges.contains_key(e));
            assert(r1.edges[e] == r0.edges[e]);
        } else {
            assert(r1.edges.contains_key(edge));
        }
    }
    assert(r1.view().relations =~= r0.view().relations.insert(new_edge));
}

/// A planned rewire stands for live edge `origin` of `r`, with the end at
/// node `di` replaced by node `ti`.
spec fn rewire_from<P, E, S>(r: StoreRep<P, E, S>, ti: u32, di: u32, link: (u32, u32, EdgeData), origin: u32) -> bool {
    &&& r.edges.contains_key(origin)
    &&& r.edges[origin].2 == link.2
    &&& {
        ||| r.edges[origin].1 == di && r.edges[origin].0 == link.0 && link.1 == ti && link.0 != ti
            && link.0 != di
        ||| r.edges[origin].0 == di && r.edges[origin].1 == link.1 && link.0 == ti && link.1 != ti
            && link.1 != di
    }
}

/// Distinct edge indexes drawn from a finite edge domain are no more than
/// the domain holds.
proof fn lemma_origin_within_edges(origin: Seq<u32>, edges: Set<u32>)
    requires
        origin.no_duplicates(),
        edges.finite(),
        forall|j: int| 0 <= j < origin.len() ==> edges.contains(#[trigger] origin[j]),
    ensures
        origin.len() <= edges.len(),
{
    origin.unique_seq_to_set();
    assert(origin.to_set().subset_of(edges));
    vstd::set_lib::lemma_len_subset(origin.to_set(), edges);
}

/// Whether live edge `e` of `r` joins node `di` to a node other than `ti`
/// and `di`.
spec fn edge_moves<P, E, S>(r: StoreRep<P, E, S>, ti: u32, di: u32, e: u32) -> bool {
    &&& r.edges.contains_key(e)
    &&& {
        ||| r.edges[e].1 == di && r.edges[e].0 != ti && r.edges[e].0 != di
        ||| r.edges[e].0 == di && r.edges[e].1 != ti && r.edges[e].1 != di
    }
}

/// Removing an identity's node and index entry keeps the representation
/// well formed and leaves exactly the relations away from it.
/// Dropping the edges at node `di` leaves the edge count less the node's
/// degree.
proof fn lemma_degree_split<P, E, S>(r0: StoreRep<P, E, S>, r1: StoreRep<P, E, S>, di: u32)
    requires
        r0.wf(),
        r1.edges == r0.edges.restrict(r0.edges.dom().filter(|e: u32| !touches(r0.edges, e, di))),
    ensures
        r1.edges.len() + r0.edges.dom().filter(|e: u32| touches(r0.edges, e, di)).len() == r0.edges.len(),
{
    let d = r0.edges.dom();
    let a = d.filter(|e: u32| !touches(r0.edges, e, di));
    let b = d.filter(|e: u32| touches(r0.edges, e, di));
    assert(r1.edges.dom() =~= a);
    vstd::set_lib::lemma_len_subset(a, d);
    vstd::set_lib::lemma_len_subset(b, d);
    assert(a.disjoint(b));
    assert(a + b =~= d);
    vstd::set_lib::lemma_set_disjoint_lens(a, b);
}

proof fn lemma_merge_removal<P, E, S>(r0: StoreRep<P, E, S>, r1: StoreRep<P, E, S>, di: u32, duplicate: IdentityId)
    requires
        r0.wf(),
        r0.nodes.contains_key(di),
        r0.nodes[di] == Vertex::Identity(duplicate),
        r0.identities.contains_key(duplicate.0),
        r1.nodes == r0.nodes.remove(di),
        r1.edges == r0.edges.restrict(r0.edges.dom().filter(|e: u32| !touches(r0.edges, e, di))),
        r1.identities == r0.identities.remove(duplicate.0),
        r1.observations == r0.observations,
        r1.events == r0.events,
        r1.states == r0.states,
    ensures
        r1.wf(),
        r1.view().relations == r0.view().kept_after_merge(Vertex::Identity(duplicate)),
        r1.view().identities == r0.view().identities.remove(duplicate.0),
        r1.view().observations == r0.view().observations,
        r1.view().events == r0.view().events,
        r1.view().states == r0.view().states,
        r1.nodes.len() + 1 == r0.nodes.len(),
        forall|e: u32| #[trigger] r1.edges.contains_key(e) <==> r0.edges.contains_key(e) && !touches(r0.edges, e, di),
{
    let dv = Vertex::Identity(duplicate);
    assert(r0.index_of(dv) == Some(di));
    assert forall|e: u32| #[trigger] r1.edges.contains_key(e) <==> r0.edges.contains_key(e) && !touches(r0.edges, e, di) by {}
    assert forall|i: u32| #[trigger] r0.nodes.contains_key(i) && r0.nodes[i] == dv implies i == di by {
        assert(r0.index_of(r0.nodes[i]) == Some(i));
    }
    assert forall|raw: u64| #[trigger] r1.identities.contains_key(raw) implies r1.nodes.contains_key(r1.identities[raw].0)
        && r1.nodes[r1.identities[raw].0] == Vertex::Identity(IdentityId(raw)) by {
        assert(r0.identities.contains_key(raw));
        assert(r0.nodes[r0.identities[raw].0] == Vertex::Identity(IdentityId(raw)));
    }
    assert forall|raw: u64| #[trigger] r1.observations.contains_key(raw) implies r1.nodes.contains_key(r1.observations[raw].0) by {
        assert(r0.nodes[r0.observations[raw].0] == Vertex::Observation(ObservationId(raw)));
    }
    assert forall|raw: u64| #[trigger] r1.events.contains_key(raw) implies r1.nodes.contains_key(r1.events[raw].0) by {
        assert(r0.nodes[r0.events[raw].0] == Vertex::Event(EventId(raw)));
    }
    assert forall|raw: u64| #[trigger] r1.states.contains_key(raw) implies r1.nodes.contains_key(r1.states[raw].0) by {
        assert(r0.nodes[r0.states[raw].0] == Vertex::State(StateId(raw)));
    }
    assert forall|i: u32| #[trigger] r1.nodes.contains_key(i) implies r1.index_of(r1.nodes[i]) == Some(i) by {
        assert(r0.index_of(r0.nodes[i]) == Some(i));
        if r0.nodes[i] == dv {
            assert(i == di);
        }
    }
    assert forall|e: u32| #[trigger] r1.edges.contains_key(e) implies {
        &&& r1.nodes.contains_key(r1.edges[e].0)
        &&& r1.nodes.contains_key(r1.edges[e].1)
        &&& spec_valid_transition(r1.edges[e].2.relation, r1.nodes[r1.edges[e].0], r1.nodes[r1.edges[e].1])
    } by {
        assert(r0.edges.contains_key(e));
    }
    assert(r1.nodes.dom() =~= r0.nodes.dom().remove(di));
    assert(r1.edges.dom() =~= r0.edges.dom().filter(|e: u32| !touches(r0.edges, e, di)));
    assert(r1.edges_sound());
    assert(r1.view().relations =~= r0.view().kept_after_merge(dv)) by {
        assert forall|x: Edge| r1.view().relations.contains(x) implies r0.view().kept_after_merge(dv).contains(x) by {
            let e = choose|e: u32| #![trigger r1.edges[e]] r1.edges.contains_key(e) && edge_image(r1.nodes, r1.edges[e]) == x;
            assert(r0.edges.contains_key(e));
            assert(r0.view().relations.contains(x));
            if x.source == dv {
                assert(r0.nodes[r0.edges[e].0] == dv);
            }
            if x.target == dv {
                assert(r0.nodes[r0.edges[e].1] == dv);
            }
        }
        assert forall|x: Edge| r0.view().kept_after_merge(dv).contains(x) implies r1.view().relations.contains(x) by {
            let e = choose|e: u32| #![trigger r0.edges[e]] r0.edges.contains_key(e) && edge_image(r0.nodes, r0.edges[e]) == x;
            assert(r1.edges.contains_key(e));
        }
    }
    assert(r1.view().identities =~= r0.view().identities.remove(duplicate.0));
    assert(r1.view().observations =~= r0.view().observations);
    assert(r1.view().events =~= r0.view().events);
    assert(r1.view().states =~= r0.view().states);
}

/// Facts about the rewires planned for a merge: they are the moved
/// relations, they never share a relation key, no two move supports of one
/// observation, no remaining edge gives such an observation a support, each
/// joins live nodes within the schema, and there are no more of them than
/// edges removed with the duplicate.
proof fn lemma_rewire_plan<P, E, S>(
    r0: StoreRep<P, E, S>,
    r1: StoreRep<P, E, S>,
    ti: u32,
    di: u32,
    target: IdentityId,
    duplicate: IdentityId,
    rewires: Seq<(u32, u32, EdgeData)>,
    origin: Seq<u32>,
    images: Seq<Edge>,
)
    requires
        r0.wf(),
        r0.nodes.contains_key(ti),
        r0.nodes.contains_key(di),
        r0.nodes[ti] == Vertex::Identity(target),
        r0.nodes[di] == Vertex::Identity(duplicate),
        ti != di,
        r1.nodes == r0.nodes.remove(di),
        forall|e: u32| #[trigger] r1.edges.contains_key(e) <==> r0.edges.contains_key(e) && !touches(r0.edges, e, di),
        r1.edges.dom().finite(),
        rewires.len() == origin.len(),
        origin.no_duplicates(),
        forall|j: int| 0 <= j < rewires.len() ==> rewire_from(r0, ti, di, #[trigger] rewires[j], origin[j]),
        forall|e: u32| #[trigger] edge_moves(r0, ti, di, e) ==> origin.contains(e),
        images.len() == rewires.len(),
        forall|j: int| 0 <= j < images.len() ==> #[trigger] images[j] == edge_image(r0.nodes, rewires[j]),
    ensures
        forall|y: Edge|
            r0.view().moved_by_merge(Vertex::Identity(duplicate), Vertex::Identity(target)).contains(y)
                <==> images.contains(y),
        forall|a: int, b: int|
            0 <= a < b < images.len() ==> !(#[trigger] images[a].source == #[trigger] images[b].source
                && images[a].relation == images[b].relation && images[a].target == images[b].target),
        images.no_duplicates(),
        forall|a: int, b: int|
            0 <= a < b < rewires.len() && #[trigger] rewires[a].2.relation == Relation::Supports
                && #[trigger] rewires[b].2.relation == Relation::Supports ==> rewires[a].0 != rewires[b].0,
        forall|j: int, e: u32|
            0 <= j < rewires.len() && #[trigger] rewires[j].2.relation == Relation::Supports
                && #[trigger] r1.edges.contains_key(e) ==> !(r0.edges[e].0 == rewires[j].0
                && r0.edges[e].2.relation == Relation::Supports),
        forall|j: int|
            0 <= j < rewires.len() ==> {
                &&& r1.nodes.contains_key((#[trigger] rewires[j]).0)
                &&& r1.nodes.contains_key(rewires[j].1)
                &&& spec_valid_transition(rewires[j].2.relation, r1.nodes[rewires[j].0], r1.nodes[rewires[j].1])
                &&& edge_image(r1.nodes, rewires[j]) == images[j]
            },
        r1.edges.len() + rewires.len() <= r0.edges.len(),
{
    let dv = Vertex::Identity(duplicate);
    let tv = Vertex::Identity(target);
    let v0 = r0.view();
    assert forall|i: u32, j: u32|
        #[trigger] r0.nodes.contains_key(i) && #[trigger] r0.nodes.contains_key(j) && r0.nodes[i] == r0.nodes[j] implies i == j by {
        assert(r0.index_of(r0.nodes[i]) == Some(i));
        assert(r0.index_of(r0.nodes[j]) == Some(j));
    }
    assert forall|j: int| 0 <= j < rewires.len() implies {
        &&& r1.nodes.contains_key((#[trigger] rewires[j]).0)
        &&& r1.nodes.contains_key(rewires[j].1)
        &&& spec_valid_transition(rewires[j].2.relation, r1.nodes[rewires[j].0], r1.nodes[rewires[j].1])
        &&& edge_image(r1.nodes, rewires[j]) == images[j]
    } by {
        let e = origin[j];
        assert(r0.edges.contains_key(e));
        assert(r0.nodes.contains_key(r0.edges[e].0));
        assert(r0.nodes.contains_key(r0.edges[e].1));
        assert(spec_valid_transition(r0.edges[e].2.relation, r0.nodes[r0.edges[e].0], r0.nodes[r0.edges[e].1]));
        if r0.edges[e].1 == di {
            if r0.nodes[r0.edges[e].0] == tv {
                assert(r0.edges[e].0 == ti);
            }
        } else {
            if r0.nodes[r0.edges[e].1] == tv {
                assert(r0.edges[e].1 == ti);
            }
        }
    }
    assert forall|y: Edge| v0.moved_by_merge(dv, tv).contains(y) <==> images.contains(y) by {
        if v0.moved_by_merge(dv, tv).contains(y) {
            let x = choose|x: Edge| #![trigger v0.relations.contains(x)] v0.relations.contains(x) && is_moved(x, dv, tv) && y == rewired(x, dv, tv);
            let e = choose|e: u32| #![trigger r0.edges[e]] r0.edges.contains_key(e) && edge_image(r0.nodes, r0.edges[e]) == x;
            assert(r0.nodes.contains_key(r0.edges[e].0));
            assert(r0.nodes.contains_key(r0.edges[e].1));
            if x.target == dv {
                assert(r0.edges[e].1 == di);
                if r0.edges[e].0 == ti || r0.edges[e].0 == di {
                    assert(false);
                }
            } else {
                assert(r0.edges[e].0 == di);
                if r0.edges[e].1 == ti || r0.edges[e].1 == di {
                    assert(false);
                }
            }
            assert(edge_moves(r0, ti, di, e));
            assert(origin.contains(e));
            let j = choose|j: int| 0 <= j < origin.len() && origin[j] == e;
            assert(rewire_from(r0, ti, di, rewires[j], origin[j]));
            assert(images[j] == y);
        }
        if images.contains(y) {
            let j = choose|j: int| 0 <= j < images.len() && images[j] == y;
            let e = origin[j];
            assert(rewire_from(r0, ti, di, rewires[j], e));
            let x = edge_image(r0.nodes, r0.edges[e]);
            assert(v0.relations.contains(x));
            assert(r0.nodes.contains_key(r0.edges[e].0));
            assert(r0.nodes.contains_key(r0.edges[e].1));
            if r0.edges[e].1 == di {
                if r0.nodes[r0.edges[e].0] == tv || r0.nodes[r0.edges[e].0] == dv {
                    assert(false);
                }
            } else {
                if r0.nodes[r0.edges[e].1] == tv || r0.nodes[r0.edges[e].1] == dv {
                    assert(false);
                }
            }
            assert(is_moved(x, dv, tv));
            assert(rewired(x, dv, tv) == y);
        }
    }
    assert forall|a: int, b: int|
        0 <= a < b < images.len() implies !(#[trigger] images[a].source == #[trigger] images[b].source
            && images[a].relation == images[b].relation && images[a].target == images[b].target) by {
        if images[a].source == images[b].source && images[a].relation == images[b].relation
            && images[a].target == images[b].target {
            let ea = origin[a];
            let eb = origin[b];
            assert(rewire_from(r0, ti, di, rewires[a], ea));
            assert(rewire_from(r0, ti, di, rewires[b], eb));
            assert(r0.nodes.contains_key(r0.edges[ea].0) && r0.nodes.contains_key(r0.edges[ea].1));
            assert(r0.nodes.contains_key(r0.edges[eb].0) && r0.nodes.contains_key(r0.edges[eb].1));
            assert(rewires[a].0 == rewires[b].0);
            assert(rewires[a].1 == rewires[b].1);
            assert(r0.edges[ea].0 == r0.edges[eb].0);
            assert(r0.edges[ea].1 == r0.edges[eb].1);
            assert(ea == eb);
            assert(false);
        }
    }
    assert forall|a: int, b: int| 0 <= a < b < images.len() implies images[a] != images[b] by {
        assert(!(images[a].source == images[b].source && images[a].relation == images[b].relation
            && images[a].target == images[b].target));
    }
    assert forall|a: int, b: int|
        0 <= a < b < rewires.len() && #[trigger] rewires[a].2.relation == Relation::Supports
            && #[trigger] rewires[b].2.relation == Relation::Supports implies rewires[a].0 != rewires[b].0 by {
        let ea = origin[a];
        let eb = origin[b];
        assert(rewire_from(r0, ti, di, rewires[a], ea));
        assert(rewire_from(r0, ti, di, rewires[b], eb));
        assert(spec_valid_transition(r0.edges[ea].2.relation, r0.nodes[r0.edges[ea].0], r0.nodes[r0.edges[ea].1]));
        assert(spec_valid_transition(r0.edges[eb].2.relation, r0.nodes[r0.edges[eb].0], r0.nodes[r0.edges[eb].1]));
        if rewires[a].0 == rewires[b].0 {
            assert(r0.edges[ea].0 == r0.edges[eb].0);
            assert(ea == eb);
        }
    }
    assert forall|j: int, e: u32|
        0 <= j < rewires.len() && #[trigger] rewires[j].2.relation == Relation::Supports
            && #[trigger] r1.edges.contains_key(e) implies !(r0.edges[e].0 == rewires[j].0
            && r0.edges[e].2.relation == Relation::Supports) by {
        let o = origin[j];
        assert(rewire_from(r0, ti, di, rewires[j], o));
        assert(spec_valid_transition(r0.edges[o].2.relation, r0.nodes[r0.edges[o].0], r0.nodes[r0.edges[o].1]));
        if r0.edges[e].0 == rewires[j].0 && r0.edges[e].2.relation == Relation::Supports {
            assert(r0.edges[o].0 == r0.edges[e].0);
            assert(o == e);
        }
    }
    let removed = origin.to_set();
    assert(removed.disjoint(r1.edges.dom())) by {
        assert forall|e: u32| removed.contains(e) implies !r1.edges.dom().contains(e) by {
            let j = choose|j: int| 0 <= j < origin.len() && origin[j] == e;
            assert(rewire_from(r0, ti, di, rewires[j], origin[j]));
        }
    }
    assert((removed + r1.edges.dom()).subset_of(r0.edges.dom())) by {
        assert forall|e: u32| (removed + r1.edges.dom()).contains(e) implies r0.edges.dom().contains(e) by {
            if removed.contains(e) {
                let j = choose|j: int| 0 <= j < origin.len() && origin[j] == e;
                assert(rewire_from(r0, ti, di, rewires[j], origin[j]));
            }
        }
    }
    origin.unique_seq_to_set();
    vstd::set_lib::lemma_set_disjoint_lens(removed, r1.edges.dom());
    vstd::set_lib::lemma_len_subset(removed + r1.edges.dom(), r0.edges.dom());
}

/// A closed walk of causal edges is a cycle of causal relations.
proof fn lemma_walk_to_chain<P, E, S>(r: StoreRep<P, E, S>, walk: Seq<u32>)
    requires
        is_causal_walk(r.edges, walk),
    ensures
        r.view().has_causal_cycle(),
{
    let v = r.view();
    let chain = Seq::new(walk.len(), |k: int| edge_image(r.nodes, r.edges[walk[k]]));
    assert forall|k: int| 0 <= k < chain.len() implies v.relations.contains(#[trigger] chain[k]) && spec_is_eskg(chain[k].relation) by {
        assert(r.edges.contains_key(walk[k]));
    }
    assert forall|k: int, l: int|
        #![trigger chain[k], chain[l]]
        0 <= k && l == k + 1 && l < chain.len() implies chain[k].target == chain[l].source by {
        assert(r.edges[walk[k]].1 == r.edges[walk[l]].0);
    }
    assert(v.is_causal_cycle(chain));
}

/// A cycle of causal relations of a well-formed representation comes from a
/// closed walk of causal edges.
proof fn lemma_chain_to_walk<P, E, S>(r: StoreRep<P, E, S>, chain: Seq<Edge>)
    requires
        r.wf(),
        r.view().is_causal_cycle(chain),
    ensures
        exists|walk: Seq<u32>| #[trigger] is_causal_walk(r.edges, walk),
{
    let v = r.view();
    let walk = Seq::new(chain.len(), |k: int| choose|e: u32| #![trigger r.edges[e]] r.edges.contains_key(e) && edge_image(r.nodes, r.edges[e]) == chain[k]);
    assert forall|k: int| 0 <= k < walk.len() implies r.edges.contains_key(#[trigger] walk[k]) && edge_image(r.nodes, r.edges[walk[k]]) == chain[k] by {
        assert(v.relations.contains(chain[k]));
    }
    assert forall|k: int, l: int|
        #![trigger walk[k], walk[l]]
        0 <= k && l == k + 1 && l < walk.len() implies r.edges[walk[k]].1 == r.edges[walk[l]].0 by {
        let i = r.edges[walk[k]].1;
        let j = r.edges[walk[l]].0;
        assert(r.edges.contains_key(walk[k]));
        assert(r.edges.contains_key(walk[l]));
        assert(chain[k].target == chain[l].source);
        assert(r.nodes.contains_key(i));
        assert(r.nodes.contains_key(j));
        assert(r.index_of(r.nodes[i]) == Some(i));
        assert(r.index_of(r.nodes[j]) == Some(j));
    }
    let last = walk.len() - 1;
    let i = r.edges[walk[last]].1;
    let j = r.edges[walk[0]].0;
    assert(r.edges.contains_key(walk[last]));
    assert(r.edges.contains_key(walk[0]));
    assert(r.nodes.contains_key(i));
    assert(r.nodes.contains_key(j));
    assert(r.index_of(r.nodes[i]) == Some(i));
    assert(r.index_of(r.nodes[j]) == Some(j));
    assert forall|k: int| 0 <= k < walk.len() implies r.edges.contains_key(#[trigger] walk[k]) && spec_is_eskg(r.edges[walk[k]].2.relation) by {
        assert(chain[k] == edge_image(r.nodes, r.edges[walk[k]]));
    }
    assert(is_causal_walk(r.edges, walk));
}

/// Whether live edge `e` is a support relation leaving node `i`
/// (`outgoing`) or entering it.
pub open spec fn support_at<P, E, S>(r: StoreRep<P, E, S>, e: u32, i: u32, outgoing: bool) -> bool {
    &&& r.edges.contains_key(e)
    &&& r.edges[e].2.relation == Relation::Supports
    &&& if outgoing {
        r.edges[e].0 == i
    } else {
        r.edges[e].1 == i
    }
}

/// An observation has a support owner exactly when a support edge leaves
/// its node.
proof fn lemma_owner_iff_edge<P, E, S>(r: StoreRep<P, E, S>, i: u32, o: ObservationId)
    requires
        r.wf(),
        r.nodes.contains_key(i),
        r.nodes[i] == Vertex::Observation(o),
    ensures
        (r.view().support_owner(Vertex::Observation(o)) is Some) <==> exists|e: u32| #[trigger] support_at(r, e, i, true),
{
    let v = r.view();
    let vertex = Vertex::Observation(o);
    if exists|e: u32| #[trigger] support_at(r, e, i, true) {
        let e = choose|e: u32| #[trigger] support_at(r, e, i, true);
        let x = edge_image(r.nodes, r.edges[e]);
        assert(v.relations.contains(x));
        assert(spec_valid_transition(r.edges[e].2.relation, r.nodes[r.edges[e].0], r.nodes[r.edges[e].1]));
        assert(v.is_support_from(x, vertex));
    }
    if v.support_owner(vertex) is Some {
        let x = choose|x: Edge| #[trigger] v.is_support_from(x, vertex);
        let e = choose|e: u32| #![trigger r.edges[e]] r.edges.contains_key(e) && edge_image(r.nodes, r.edges[e]) == x;
        let j = r.edges[e].0;
        assert(r.nodes.contains_key(j));
        assert(r.index_of(r.nodes[j]) == Some(j));
        assert(r.index_of(r.nodes[i]) == Some(i));
        assert(support_at(r, e, i, true));
    }
}

/// An identity is supported exactly when a support edge enters its node.
proof fn lemma_supported_iff_edge<P, E, S>(r: StoreRep<P, E, S>, i: u32, id: IdentityId)
    requires
        r.wf(),
        r.nodes.contains_key(i),
        r.nodes[i] == Vertex::Identity(id),
    ensures
        r.view().is_supported(id) <==> exists|e: u32| #[trigger] support_at(r, e, i, false),
{
    let v = r.view();
    if exists|e: u32| #[trigger] support_at(r, e, i, false) {
        let e = choose|e: u32| #[trigger] support_at(r, e, i, false);
        let x = edge_image(r.nodes, r.edges[e]);
        assert(v.relations.contains(x));
        assert(spec_valid_transition(r.edges[e].2.relation, r.nodes[r.edges[e].0], r.nodes[r.edges[e].1]));
        let o = x.source->Observation_0;
        assert(v.supports(o, id));
    }
    if v.is_supported(id) {
        let o = choose|o: ObservationId| #[trigger] v.supports(o, id);
        let x = choose|x: Edge| #![trigger v.relations.contains(x)] v.relations.contains(x) && x.source == Vertex::Observation(o) && x.relation == Relation::Supports && x.target == Vertex::Identity(id);
        let e = choose|e: u32| #![trigger r.edges[e]] r.edges.contains_key(e) && edge_image(r.nodes, r.edges[e]) == x;
        let j = r.edges[e].1;
        assert(r.nodes.contains_key(j));
        assert(r.index_of(r.nodes[j]) == Some(j));
        assert(r.index_of(r.nodes[i]) == Some(i));
        assert(support_at(r, e, i, false));
    }
}

/// Once a prefix of a batch is refused, the whole batch is refused with the
/// same error.
proof fn lemma_run_error_persists<P, E, S>(view: StoreView<P, E, S>, ops: Seq<GraphOperation<P, E, S>>, n: int)
    requires
        0 <= n <= ops.len(),
        spec_run(view, ops.take(n)) is Err,
    ensures
        spec_run(view, ops) == spec_run(view, ops.take(n)),
    decreases ops.len() - n,
{
    if n < ops.len() {
        assert(ops.take(n + 1).drop_last() =~= ops.take(n));
        lemma_run_error_persists(view, ops, n + 1);
    } else {
        assert(ops.take(n) =~= ops);
    }
}

impl<P, E, S> PetGraphStore<P, E, S> {
    /// The concrete representation, for specifications.
    pub closed spec fn rep(&self) -> StoreRep<P, E, S> {
        StoreRep {
            nodes: graph_nodes(self.raw_graph),
            edges: graph_edges(self.raw_graph),
            observations: self.observations@,
            identities: self.identities@,
            events: self.events@,
            states: self.states@,
        }
    }

    /// The logical content of the store.
    pub open spec fn view(&self) -> StoreView<P, E, S> {
        self.rep().view()
    }

    /// Well-formedness, established by constructors and kept by every
    /// operation.
    pub open spec fn inv(&self) -> bool {
        self.rep().wf()
    }

    /// Number of live vertices, for specifications.
    pub open spec fn spec_node_count(&self) -> nat {
        self.rep().nodes.len()
    }

    /// Number of live relations, for specifications.
    pub open spec fn spec_edge_count(&self) -> nat {
        self.rep().edges.len()
    }

    /// Number of live relations with `vertex` as an endpoint; zero for an
    /// unregistered vertex. For specifications.
    pub open spec fn spec_degree(&self, vertex: Vertex) -> nat {
        match self.rep().index_of(vertex) {
            Some(i) => self.rep().edges.dom().filter(|e: u32| touches(self.rep().edges, e, i)).len(),
            None => 0,
        }
    }

    /// Creates an empty store.
    pub fn new() -> (store: Self)
        ensures
            store.inv(),
            store.view().observations.dom() == Set::<u64>::empty(),
            store.view().identities.dom() == Set::<u64>::empty(),
            store.view().events.dom() == Set::<u64>::empty(),
            store.view().states.dom() == Set::<u64>::empty(),
            store.view().relations == Set::<Edge>::empty(),
    {
        Self::with_capacity(0, 0)
    }

    /// Creates an empty store with room for a known working set; the
    /// capacities are bounded by the `u32` index space of the graph.
    pub fn with_capacity(node_capacity: usize, edge_capacity: usize) -> (store: Self)
        requires
            node_capacity <= u32::MAX,
            edge_capacity <= u32::MAX,
        ensures
            store.inv(),
            store.view().observations.dom() == Set::<u64>::empty(),
            store.view().identities.dom() == Set::<u64>::empty(),
            store.view().events.dom() == Set::<u64>::empty(),
            store.view().states.dom() == Set::<u64>::empty(),
            store.view().relations == Set::<Edge>::empty(),
    {
        let store = PetGraphStore {
            raw_graph: raw_with_capacity(node_capacity, edge_capacity),
            observations: BTreeMap::new(),
            identities: BTreeMap::new(),
            events: BTreeMap::new(),
            states: BTreeMap::new(),
        };
        proof {
            let r = store.rep();
            assert(r.nodes.dom() =~= Set::<u32>::empty());
            assert(r.edges.dom() =~= Set::<u32>::empty());
            assert(r.view().relations =~= Set::<Edge>::empty());
            assert(r.view().observations.dom() =~= Set::<u64>::empty());
            assert(r.view().identities.dom() =~= Set::<u64>::empty());
            assert(r.view().events.dom() =~= Set::<u64>::empty());
            assert(r.view().states.dom() =~= Set::<u64>::empty());
        }
        store
    }

    /// Number of registered vertices.
    pub fn node_count(&self) -> (count: usize)
        ensures
            count == self.spec_node_count(),
    {
        raw_node_count(&self.raw_graph)
    }

    /// Number of registered relations.
    pub fn edge_count(&self) -> (count: usize)
        ensures
            count == self.spec_edge_count(),
    {
        raw_edge_count(&self.raw_graph)
    }

    /// Reserves topology room for more vertices and relations; the logical
    /// graph is unchanged. Each request is bounded by the `u32` index space.
    pub fn reserve(&mut self, additional_nodes: usize, additional_edges: usize)
        requires
            old(self).inv(),
            additional_nodes <= u32::MAX,
            additional_edges <= u32::MAX,
        ensures
            final(self).inv(),
            final(self).view() == old(self).view(),
            final(self).spec_node_count() == old(self).spec_node_count(),
            final(self).spec_edge_count() == old(self).spec_edge_count(),
    {
        raw_reserve_nodes(&mut self.raw_graph, additional_nodes);
        raw_reserve_edges(&mut self.raw_graph, additional_edges);
        proof {
            assert(self.rep() == old(self).rep());
        }
    }

    /// Returns the node record of a registered vertex, with cloned payloads,
    /// or `None` when it is not registered.
    pub fn node_data(&self, vertex: Vertex) -> (data: Option<NodeData<P, E, S>>) where
        P: Clone,
        E: Clone,
        S: Clone,
        requires
            self.inv(),
        ensures
            data is Some <==> self.view().contains_vertex(vertex),
            data matches Some(d) ==> d.spec_vertex() == vertex && match d {
                NodeData::Observation(obs) => {
                    &&& obs.modality == self.view().observations[obs.id.0].modality
                    &&& obs.timestamp == self.view().observations[obs.id.0].timestamp
                    &&& cloned(self.view().observations[obs.id.0].payload, obs.payload)
                },
                NodeData::Identity { id, created_at } => created_at == self.view().identities[id.0],
                NodeData::Event { id, timestamp, payload } => {
                    &&& timestamp == self.view().events[id.0].timestamp
                    &&& cloned(self.view().events[id.0].payload, payload)
                },
                NodeData::State { id, timestamp, payload } => {
                    &&& timestamp == self.view().states[id.0].timestamp
                    &&& cloned(self.view().states[id.0].payload, payload)
                },
            },
    {
        match vertex {
            Vertex::Observation(id) => match self.observations.get(&id.0) {
                Some(entry) => Some(NodeData::Observation(entry.1.clone())),
                None => None,
            },
            Vertex::Identity(id) => match self.identities.get(&id.0) {
                Some(entry) => Some(NodeData::Identity { id, created_at: entry.1 }),
                None => None,
            },
            Vertex::Event(id) => match self.events.get(&id.0) {
                Some(entry) => Some(
                    NodeData::Event { id, timestamp: entry.1.timestamp, payload: entry.1.payload.clone() },
                ),
                None => None,
            },
            Vertex::State(id) => match self.states.get(&id.0) {
                Some(entry) => Some(
                    NodeData::State { id, timestamp: entry.1.timestamp, payload: entry.1.payload.clone() },
                ),
                None => None,
            },
        }
    }

    /// The stable graph holding the store's topology.
    pub(crate) fn topology(&self) -> (graph: &StableGraph<Vertex, EdgeData, Directed, u32>)
        ensures
            graph_nodes(*graph) == self.rep().nodes,
            graph_edges(*graph) == self.rep().edges,
    {
        &self.raw_graph
    }

    /// The stored payload of an event, if it is registered.
    pub(crate) fn event_node(&self, raw: u64) -> (node: Option<&EventNode<E>>)
        ensures
            node matches Some(n) ==> self.rep().events.contains_key(raw) && *n == self.rep().events[raw].1,
            node is None ==> !self.rep().events.contains_key(raw),
    {
        match self.events.get(&raw) {
            Some(entry) => Some(&entry.1),
            None => None,
        }
    }

    /// The stored payload of a state, if it is registered.
    pub(crate) fn state_node(&self, raw: u64) -> (node: Option<&StateNode<S>>)
        ensures
            node matches Some(n) ==> self.rep().states.contains_key(raw) && *n == self.rep().states[raw].1,
            node is None ==> !self.rep().states.contains_key(raw),
    {
        match self.states.get(&raw) {
            Some(entry) => Some(&entry.1),
            None => None,
        }
    }

    /// The graph index stored for a vertex, if it is registered.
    fn stored_index(&self, vertex: Vertex) -> (index: Option<u32>)
        ensures
            index == self.rep().index_of(vertex),
    {
        match vertex {
            Vertex::Observation(id) => match self.observations.get(&id.0) {
                Some(entry) => Some(entry.0),
                None => None,
            },
            Vertex::Identity(id) => match self.identities.get(&id.0) {
                Some(entry) => Some(entry.0),
                None => None,
            },
            Vertex::Event(id) => match self.events.get(&id.0) {
                Some(entry) => Some(entry.0),
                None => None,
            },
            Vertex::State(id) => match self.states.get(&id.0) {
                Some(entry) => Some(entry.0),
                None => None,
            },
        }
    }

    /// Returns `true` when the vertex is registered.
    pub fn contains_vertex(&self, vertex: Vertex) -> (found: bool)
        requires
            self.inv(),
        ensures
            found == self.view().contains_vertex(vertex),
    {
        proof {
            self.lemma_contains_iff_indexed(vertex);
        }
        self.stored_index(vertex).is_some()
    }

    /// A vertex is registered exactly when the index holds it.
    proof fn lemma_contains_iff_indexed(&self, vertex: Vertex)
        ensures
            self.view().contains_vertex(vertex) == (self.rep().index_of(vertex) is Some),
    {
    }

    /// The node index of a registered vertex, checked against the graph.
    fn checked_index(&self, vertex: Vertex) -> (result: Result<u32, GraphError>)
        requires
            self.inv(),
        ensures
            self.view().contains_vertex(vertex) ==> result == Ok::<u32, GraphError>(
                self.rep().index_of(vertex)->Some_0,
            ),
            !self.view().contains_vertex(vertex) ==> result == Err::<u32, GraphError>(
                GraphError::VertexNotFound { vertex },
            ),
            result matches Ok(i) ==> self.rep().nodes.contains_key(i) && self.rep().nodes[i]
                == vertex,
    {
        proof {
            self.lemma_contains_iff_indexed(vertex);
        }
        match self.stored_index(vertex) {
            None => Err(GraphError::VertexNotFound { vertex }),
            Some(index) => {
                match raw_node_weight(&self.raw_graph, index) {
                    Some(stored) => {
                        if stored == vertex {
                            Ok(index)
                        } else {
                            Err(GraphError::CorruptIndex { vertex })
                        }
                    },
                    None => Err(GraphError::CorruptIndex { vertex }),
                }
            },
        }
    }

    /// Registers an observation vertex, refusing one already registered.
    fn commit_observation(&mut self, obs: Observation<P>) -> (result: Result<Undo, GraphError>)
        requires
            old(self).inv(),
            old(self).spec_node_count() < u32::MAX,
        ensures
            final(self).inv(),
            match spec_step(old(self).view(), GraphOperation::<P, E, S>::CommitObservation(obs)) {
                Ok(next) => result matches Ok(undo) && final(self).view() == next && spec_undo(
                    final(self).rep(),
                    undo,
                ) == old(self).rep() && undo_applies(final(self).rep(), undo) && final(self).spec_node_count() == old(self).spec_node_count() + 1
                    && final(self).spec_edge_count() == old(self).spec_edge_count(),
                Err(error) => result == Err::<Undo, GraphError>(error) && final(self).rep() == old(
                    self,
                ).rep(),
            },
    {
        let id = obs.id;
        let vertex = Vertex::Observation(id);
        if self.observations.contains_key(&id.0) {
            return Err(GraphError::DuplicateVertex { vertex });
        }
        let ghost r0 = self.rep();
        let index = raw_add_node(&mut self.raw_graph, vertex);
        let ghost obs_copy = obs;
        self.observations.insert(id.0, (index, obs));
        proof {
            let r1 = self.rep();
            lemma_node_added(r0, r1, index, vertex);
            assert(r1.observations.remove(id.0) =~= r0.observations);
            assert forall|i: u32| #[trigger] r1.nodes.contains_key(i) implies r1.index_of(r1.nodes[i]) == Some(i) by {
                if i != index {
                    assert(r0.nodes.contains_key(i));
                    assert(r0.index_of(r0.nodes[i]) == Some(i));
                }
            }
            assert(r1.view().observations =~= r0.view().observations.insert(id.0, obs_copy));
            assert(r1.view().identities =~= r0.view().identities);
            assert(r1.view().events =~= r0.view().events);
            assert(r1.view().states =~= r0.view().states);
        }
        Ok(Undo::Node { vertex, index })
    }

    /// Registers an identity vertex, refusing one already registered.
    fn commit_identity(&mut self, id: IdentityId, created_at: Timestamp) -> (result: Result<Undo, GraphError>)
        requires
            old(self).inv(),
            old(self).spec_node_count() < u32::MAX,
        ensures
            final(self).inv(),
            match spec_step(old(self).view(), GraphOperation::<P, E, S>::CommitIdentity { id, created_at }) {
                Ok(next) => result matches Ok(undo) && final(self).view() == next && spec_undo(
                    final(self).rep(),
                    undo,
                ) == old(self).rep() && undo_applies(final(self).rep(), undo) && final(self).spec_node_count() == old(self).spec_node_count() + 1
                    && final(self).spec_edge_count() == old(self).spec_edge_count(),
                Err(error) => result == Err::<Undo, GraphError>(error) && final(self).rep() == old(
                    self,
                ).rep(),
            },
    {
        let vertex = Vertex::Identity(id);
        if self.identities.contains_key(&id.0) {
            return Err(GraphError::DuplicateVertex { vertex });
        }
        let ghost r0 = self.rep();
        let index = raw_add_node(&mut self.raw_graph, vertex);
        let ghost entry = created_at;
        self.identities.insert(id.0, (index, created_at));
        proof {
            let r1 = self.rep();
            lemma_node_added(r0, r1, index, vertex);
            assert(r1.identities.remove(id.0) =~= r0.identities);
            assert forall|i: u32| #[trigger] r1.nodes.contains_key(i) implies r1.index_of(r1.nodes[i]) == Some(i) by {
                if i != index {
                    assert(r0.nodes.contains_key(i));
                    assert(r0.index_of(r0.nodes[i]) == Some(i));
                }
            }
            assert(r1.view().identities =~= r0.view().identities.insert(id.0, entry));
            assert(r1.view().observations =~= r0.view().observations);
            assert(r1.view().events =~= r0.view().events);
            assert(r1.view().states =~= r0.view().states);
        }
        Ok(Undo::Node { vertex, index })
    }

    /// Registers an event vertex, refusing one already registered.
    fn commit_event(&mut self, id: EventId, timestamp: Timestamp, payload: E) -> (result: Result<Undo, GraphError>)
        requires
            old(self).inv(),
            old(self).spec_node_count() < u32::MAX,
        ensures
            final(self).inv(),
            match spec_step(old(self).view(), GraphOperation::<P, E, S>::CommitEvent { id, timestamp, payload }) {
                Ok(next) => result matches Ok(undo) && final(self).view() == next && spec_undo(
                    final(self).rep(),
                    undo,
                ) == old(self).rep() && undo_applies(final(self).rep(), undo) && final(self).spec_node_count() == old(self).spec_node_count() + 1
                    && final(self).spec_edge_count() == old(self).spec_edge_count(),
                Err(error) => result == Err::<Undo, GraphError>(error) && final(self).rep() == old(
                    self,
                ).rep(),
            },
    {
        let vertex = Vertex::Event(id);
        if self.events.contains_key(&id.0) {
            return Err(GraphError::DuplicateVertex { vertex });
        }
        let ghost r0 = self.rep();
        let index = raw_add_node(&mut self.raw_graph, vertex);
        let ghost entry = EventNode { id, timestamp, payload };
        self.events.insert(id.0, (index, EventNode { id, timestamp, payload }));
        proof {
            let r1 = self.rep();
            lemma_node_added(r0, r1, index, vertex);
            assert(r1.events.remove(id.0) =~= r0.events);
            assert forall|i: u32| #[trigger] r1.nodes.contains_key(i) implies r1.index_of(r1.nodes[i]) == Some(i) by {
                if i != index {
                    assert(r0.nodes.contains_key(i));
                    assert(r0.index_of(r0.nodes[i]) == Some(i));
                }
            }
            assert(r1.view().events =~= r0.view().events.insert(id.0, entry));
            assert(r1.view().observations =~= r0.view().observations);
            assert(r1.view().identities =~= r0.view().identities);
            assert(r1.view().states =~= r0.view().states);
        }
        Ok(Undo::Node { vertex, index })
    }

    /// Registers a state vertex, refusing one already registered.
    fn commit_state(&mut self, id: StateId, timestamp: Timestamp, payload: S) -> (result: Result<Undo, GraphError>)
        requires
            old(self).inv(),
            old(self).spec_node_count() < u32::MAX,
        ensures
            final(self).inv(),
            match spec_step(old(self).view(), GraphOperation::<P, E, S>::CommitState { id, timestamp, payload }) {
                Ok(next) => result matches Ok(undo) && final(self).view() == next && spec_undo(
                    final(self).rep(),
                    undo,
                ) == old(self).rep() && undo_applies(final(self).rep(), undo) && final(self).spec_node_count() == old(self).spec_node_count() + 1
                    && final(self).spec_edge_count() == old(self).spec_edge_count(),
                Err(error) => result == Err::<Undo, GraphError>(error) && final(self).rep() == old(
                    self,
                ).rep(),
            },
    {
        let vertex = Vertex::State(id);
        if self.states.contains_key(&id.0) {
            return Err(GraphError::DuplicateVertex { vertex });
        }
        let ghost r0 = self.rep();
        let index = raw_add_node(&mut self.raw_graph, vertex);
        let ghost entry = StateNode { id, timestamp, payload };
        self.states.insert(id.0, (index, StateNode { id, timestamp, payload }));
        proof {
            let r1 = self.rep();
            lemma_node_added(r0, r1, index, vertex);
            assert(r1.states.remove(id.0) =~= r0.states);
            assert forall|i: u32| #[trigger] r1.nodes.contains_key(i) implies r1.index_of(r1.nodes[i]) == Some(i) by {
                if i != index {
                    assert(r0.nodes.contains_key(i));
                    assert(r0.index_of(r0.nodes[i]) == Some(i));
                }
            }
            assert(r1.view().states =~= r0.view().states.insert(id.0, entry));
            assert(r1.view().observations =~= r0.view().observations);
            assert(r1.view().identities =~= r0.view().identities);
            assert(r1.view().events =~= r0.view().events);
        }
        Ok(Undo::Node { vertex, index })
    }

    /// Two live nodes holding the same vertex are the same node.
    proof fn lemma_node_injective(&self, i: u32, j: u32)
        requires
            self.inv(),
            self.rep().nodes.contains_key(i),
            self.rep().nodes.contains_key(j),
            self.rep().nodes[i] == self.rep().nodes[j],
        ensures
            i == j,
    {
        assert(self.rep().index_of(self.rep().nodes[i]) == Some(i));
        assert(self.rep().index_of(self.rep().nodes[j]) == Some(j));
    }

    /// The identity that the observation at node `source` supports, if any.
    fn support_owner(&self, source: u32) -> (owner: Option<IdentityId>)
        requires
            self.inv(),
            self.rep().nodes.contains_key(source),
        ensures
            owner == self.view().support_owner(self.rep().nodes[source]),
    {
        let ghost r = self.rep();
        let ghost v = self.view();
        let ghost vertex = r.nodes[source];
        let out = raw_edges_directed(&self.raw_graph, source, true);
        let mut k: usize = 0;
        while k < out.len()
            invariant
                r == self.rep(),
                v == self.view(),
                self.inv(),
                r.nodes.contains_key(source),
                vertex == r.nodes[source],
                k <= out@.len(),
                forall|j: int|
                    0 <= j < out@.len() ==> {
                        &&& r.edges.contains_key(#[trigger] out@[j].0)
                        &&& r.edges[out@[j].0] == (out@[j].1, out@[j].2, out@[j].3)
                        &&& out@[j].1 == source
                    },
                forall|e: u32|
                    #![trigger r.edges[e]]
                    r.edges.contains_key(e) && r.edges[e].0 == source ==> exists|j: int|
                        0 <= j < out@.len() && #[trigger] out@[j].0 == e,
                forall|j: int| 0 <= j < k ==> (#[trigger] out@[j]).3.relation != Relation::Supports,
            decreases out@.len() - k,
        {
            let (edge, _, target, data) = out[k];
            if data.relation == Relation::Supports {
                proof {
                    assert(r.edges.contains_key(edge));
                    assert(r.nodes.contains_key(target));
                }
                match raw_node_weight(&self.raw_graph, target) {
                    Some(Vertex::Identity(id)) => {
                        proof {
                            let x = edge_image(r.nodes, r.edges[edge]);
                            assert(v.relations.contains(x));
                            assert(v.is_support_from(x, vertex));
                            let y = choose|y: Edge| #[trigger] v.is_support_from(y, vertex);
                            let e2 = choose|e2: u32| #![trigger r.edges[e2]] r.edges.contains_key(e2) && edge_image(r.nodes, r.edges[e2]) == y;
                            self.lemma_node_injective(r.edges[e2].0, source);
                            assert(r.edges[edge].0 == r.edges[e2].0);
                            assert(edge == e2);
                        }
                        return Some(id);
                    },
                    _ => {
                        proof {
                            assert(spec_valid_transition(r.edges[edge].2.relation, r.nodes[r.edges[edge].0], r.nodes[r.edges[edge].1]));
                        }
                    },
                }
            }
            k += 1;
        }
        proof {
            assert forall|x: Edge| !#[trigger] v.is_support_from(x, vertex) by {
                if v.is_support_from(x, vertex) {
                    let e = choose|e: u32| #![trigger r.edges[e]] r.edges.contains_key(e) && edge_image(r.nodes, r.edges[e]) == x;
                    self.lemma_node_injective(r.edges[e].0, source);
                    let j = choose|j: int| 0 <= j < out@.len() && #[trigger] out@[j].0 == e;
                    assert(out@[j].3.relation != Relation::Supports);
                }
            }
        }
        None
    }

    /// Whether relation `relation` already joins node `source` to node
    /// `target`.
    fn relation_exists(&self, source: u32, relation: Relation, target: u32) -> (exists: bool)
        requires
            self.inv(),
            self.rep().nodes.contains_key(source),
            self.rep().nodes.contains_key(target),
        ensures
            exists == self.view().has_relation(self.rep().nodes[source], relation, self.rep().nodes[target]),
    {
        let ghost r = self.rep();
        let ghost v = self.view();
        let out = raw_edges_directed(&self.raw_graph, source, true);
        let mut k: usize = 0;
        while k < out.len()
            invariant
                r == self.rep(),
                v == self.view(),
                self.inv(),
                r.nodes.contains_key(source),
                r.nodes.contains_key(target),
                k <= out@.len(),
                forall|j: int|
                    0 <= j < out@.len() ==> {
                        &&& r.edges.contains_key(#[trigger] out@[j].0)
                        &&& r.edges[out@[j].0] == (out@[j].1, out@[j].2, out@[j].3)
                        &&& out@[j].1 == source
                    },
                forall|e: u32|
                    #![trigger r.edges[e]]
                    r.edges.contains_key(e) && r.edges[e].0 == source ==> exists|j: int|
                        0 <= j < out@.len() && #[trigger] out@[j].0 == e,
                forall|j: int|
                    0 <= j < k ==> !((#[trigger] out@[j]).2 == target && out@[j].3.relation == relation),
            decreases out@.len() - k,
        {
            let (edge, _, to, data) = out[k];
            if to == target && data.relation == relation {
                proof {
                    let x = edge_image(r.nodes, r.edges[edge]);
                    assert(v.relations.contains(x));
                }
                return true;
            }
            k += 1;
        }
        proof {
            if v.has_relation(r.nodes[source], relation, r.nodes[target]) {
                let x = choose|x: Edge| #![trigger v.relations.contains(x)] v.relations.contains(x) && x.source == r.nodes[source] && x.relation == relation && x.target == r.nodes[target];
                let e = choose|e: u32| #![trigger r.edges[e]] r.edges.contains_key(e) && edge_image(r.nodes, r.edges[e]) == x;
                self.lemma_node_injective(r.edges[e].0, source);
                self.lemma_node_injective(r.edges[e].1, target);
                let j = choose|j: int| 0 <= j < out@.len() && #[trigger] out@[j].0 == e;
                assert(!(out@[j].2 == target && out@[j].3.relation == relation));
            }
        }
        false
    }

    /// Adds a relation after checking its schema, its endpoints, single
    /// support ownership and uniqueness.
    fn commit_relation(&mut self, source: Vertex, relation: Relation, target: Vertex, created_at: Timestamp) -> (result: Result<Undo, GraphError>)
        requires
            old(self).inv(),
            old(self).spec_edge_count() < u32::MAX,
        ensures
            final(self).inv(),
            match spec_step(old(self).view(), GraphOperation::<P, E, S>::CommitRelation { source, relation, target, created_at }) {
                Ok(next) => result matches Ok(undo) && final(self).view() == next && spec_undo(
                    final(self).rep(),
                    undo,
                ) == old(self).rep() && undo_applies(final(self).rep(), undo) && final(self).spec_node_count() == old(self).spec_node_count()
                    && final(self).spec_edge_count() == old(self).spec_edge_count() + 1,
                Err(error) => result == Err::<Undo, GraphError>(error) && final(self).rep() == old(
                    self,
                ).rep(),
            },
    {
        if !relation.is_valid_transition(&source, &target) {
            return Err(GraphError::InvalidRelationTransition { relation, source, target });
        }
        let src = match self.checked_index(source) {
            Ok(index) => index,
            Err(error) => return Err(error),
        };
        let tgt = match self.checked_index(target) {
            Ok(index) => index,
            Err(error) => return Err(error),
        };
        if relation == Relation::Supports {
            match self.support_owner(src) {
                Some(identity) => {
                    return match source {
                        Vertex::Observation(observation) => Err(
                            GraphError::ObservationAlreadyAssigned { observation, identity },
                        ),
                        _ => Err(GraphError::InvalidRelationTransition { relation, source, target }),
                    };
                },
                None => {},
            }
        }
        if self.relation_exists(src, relation, tgt) {
            return Err(GraphError::DuplicateRelation { origin: source, relation, target });
        }
        let ghost r0 = self.rep();
        let ghost v0 = self.view();
        let data = EdgeData { relation, created_at };
        let edge = raw_add_edge(&mut self.raw_graph, src, tgt, data);
        proof {
            let r1 = self.rep();
            let new_edge = Edge { source, relation, target, created_at };
            assert(edge_image(r1.nodes, r1.edges[edge]) == new_edge);
            assert(r1.view().relations =~= r0.view().relations.insert(new_edge)) by {
                assert forall|x: Edge| r1.view().relations.contains(x) implies r0.view().relations.insert(new_edge).contains(x) by {
                    let e = choose|e: u32| #![trigger r1.edges[e]] r1.edges.contains_key(e) && edge_image(r1.nodes, r1.edges[e]) == x;
                    if e != edge {
                        assert(r0.edges.contains_key(e));
                    }
                }
                assert forall|x: Edge| r0.view().relations.insert(new_edge).contains(x) implies r1.view().relations.contains(x) by {
                    if x != new_edge {
                        let e = choose|e: u32| #![trigger r0.edges[e]] r0.edges.contains_key(e) && edge_image(r0.nodes, r0.edges[e]) == x;
                        assert(r1.edges.contains_key(e));
                        assert(r1.edges[e] == r0.edges[e]);
                    } else {
                        assert(r1.edges.contains_key(edge));
                    }
                }
            }
            assert(r1.view().observations =~= r0.view().observations);
            assert(r1.view().identities =~= r0.view().identities);
            assert(r1.view().events =~= r0.view().events);
            assert(r1.view().states =~= r0.view().states);
            assert(r1.edges.remove(edge) =~= r0.edges);
            assert forall|e1: u32, e2: u32|
                #![trigger r1.edges[e1], r1.edges[e2]]
                r1.edges.contains_key(e1) && r1.edges.contains_key(e2) && r1.edges[e1].0
                    == r1.edges[e2].0 && r1.edges[e1].2.relation == r1.edges[e2].2.relation && (
                r1.edges[e1].1 == r1.edges[e2].1 || r1.edges[e1].2.relation == Relation::Supports)
                    implies e1 == e2 by {
                if e1 != e2 && (e1 == edge || e2 == edge) {
                    let other = if e1 == edge { e2 } else { e1 };
                    assert(r0.edges.contains_key(other));
                    let x = edge_image(r0.nodes, r0.edges[other]);
                    assert(v0.relations.contains(x));
                    if r0.edges[other].1 == tgt {
                        assert(v0.has_relation(source, relation, target));
                    } else {
                        assert(relation == Relation::Supports);
                        assert(spec_valid_transition(r0.edges[other].2.relation, r0.nodes[r0.edges[other].0], r0.nodes[r0.edges[other].1]));
                        assert(v0.is_support_from(x, source));
                    }
                }
            }
        }
        Ok(Undo::Edge(edge))
    }

    /// Commits one operation; a merge is refused here, since merges must be
    /// isolated in their own batch.
    fn commit_op(&mut self, op: GraphOperation<P, E, S>) -> (result: Result<Undo, GraphError>)
        requires
            old(self).inv(),
            old(self).spec_node_count() < u32::MAX,
            old(self).spec_edge_count() < u32::MAX,
        ensures
            final(self).inv(),
            match spec_step(old(self).view(), op) {
                Ok(next) => result matches Ok(undo) && final(self).view() == next && spec_undo(
                    final(self).rep(),
                    undo,
                ) == old(self).rep() && undo_applies(final(self).rep(), undo)
                    && final(self).spec_node_count() <= old(self).spec_node_count() + 1
                    && final(self).spec_edge_count() <= old(self).spec_edge_count() + 1,
                Err(error) => result == Err::<Undo, GraphError>(error) && final(self).rep() == old(
                    self,
                ).rep(),
            },
    {
        match op {
            GraphOperation::CommitObservation(obs) => self.commit_observation(obs),
            GraphOperation::CommitIdentity { id, created_at } => self.commit_identity(id, created_at),
            GraphOperation::CommitEvent { id, timestamp, payload } => self.commit_event(id, timestamp, payload),
            GraphOperation::CommitState { id, timestamp, payload } => self.commit_state(id, timestamp, payload),
            GraphOperation::CommitRelation { source, relation, target, created_at } => self.commit_relation(
                source,
                relation,
                target,
                created_at,
            ),
            GraphOperation::MergeIdentities { .. } => Err(GraphError::MergeOperationMustBeIsolated),
        }
    }

    /// Takes back one recorded step.
    fn undo_step(&mut self, undo: Undo)
        requires
            undo_applies(old(self).rep(), undo),
        ensures
            final(self).rep() == spec_undo(old(self).rep(), undo),
    {
        match undo {
            Undo::Edge(edge) => {
                let _ = raw_remove_edge(&mut self.raw_graph, edge);
            },
            Undo::Node { vertex, index } => {
                let _ = raw_remove_node(&mut self.raw_graph, index);
                match vertex {
                    Vertex::Observation(id) => {
                        let _ = self.observations.remove(&id.0);
                    },
                    Vertex::Identity(id) => {
                        let _ = self.identities.remove(&id.0);
                    },
                    Vertex::Event(id) => {
                        let _ = self.events.remove(&id.0);
                    },
                    Vertex::State(id) => {
                        let _ = self.states.remove(&id.0);
                    },
                }
            },
        }
    }

    /// Takes back every recorded step, newest first, restoring the first
    /// snapshot.
    fn rollback(&mut self, journal: &mut UndoJournal, Ghost(snapshots): Ghost<Seq<StoreRep<P, E, S>>>)
        requires
            snapshots.len() == journal_items(*old(journal)).len() + 1,
            snapshots.last() == old(self).rep(),
            forall|k: int|
                0 <= k < journal_items(*old(journal)).len() ==> undo_applies(
                    snapshots[k + 1],
                    #[trigger] journal_items(*old(journal))[k],
                ) && spec_undo(snapshots[k + 1], journal_items(*old(journal))[k]) == snapshots[k],
        ensures
            final(self).rep() == snapshots[0],
    {
        while journal_len(journal) > 0
            invariant
                journal_items(*journal).len() + 1 <= snapshots.len(),
                self.rep() == snapshots[journal_items(*journal).len() as int],
                forall|k: int|
                    0 <= k < journal_items(*journal).len() ==> undo_applies(
                        snapshots[k + 1],
                        #[trigger] journal_items(*journal)[k],
                    ) && spec_undo(snapshots[k + 1], journal_items(*journal)[k]) == snapshots[k],
            decreases journal_items(*journal).len(),
        {
            let ghost before = journal_items(*journal);
            let popped = journal_pop(journal);
            proof {
                let n = journal_items(*journal).len() as int;
                assert(journal_items(*journal) =~= before.take(n));
            }
            if let Some(undo) = popped {
                proof {
                    assert(undo == before[before.len() - 1]);
                }
                self.undo_step(undo);
            }
        }
    }

    /// Applies a batch atomically.
    ///
    /// A batch that opens with an identity merge must hold nothing else.
    /// Otherwise operations commit in order, each checked against the state
    /// left by the previous ones; the first refused operation undoes the
    /// whole batch and its error is returned. The bounds are those of the
    /// `u32` index space of the graph.
    pub fn apply_batch(&mut self, ops: Vec<GraphOperation<P, E, S>>) -> (result: Result<(), GraphError>)
        requires
            old(self).inv(),
            old(self).spec_node_count() + ops@.len() < u32::MAX,
            old(self).spec_edge_count() + ops@.len() < u32::MAX,
        ensures
            final(self).inv(),
            ops@.len() == 0 ==> result is Ok && final(self).view() == old(self).view(),
            ops@.len() > 1 && ops@[0] is MergeIdentities ==> result == Err::<(), GraphError>(
                GraphError::MergeOperationMustBeIsolated,
            ) && final(self).view() == old(self).view(),
            ops@.len() == 1 ==> match ops@[0] {
                GraphOperation::MergeIdentities { target, duplicate } => match old(self).view().merge_error(
                    target,
                    duplicate,
                ) {
                    Some(error) => result == Err::<(), GraphError>(error) && final(self).view() == old(
                        self,
                    ).view(),
                    None => result is Ok && final(self).view() == old(self).view().merged(target, duplicate),
                },
                _ => true,
            },
            ops@.len() > 0 && !(ops@[0] is MergeIdentities) ==> match spec_run(old(self).view(), ops@) {
                Ok(next) => result is Ok && final(self).view() == next,
                Err(error) => result == Err::<(), GraphError>(error) && final(self).view() == old(
                    self,
                ).view(),
            },
    {
        let ghost all = ops@;
        let ghost start = self.rep();
        if ops.len() == 0 {
            return Ok(());
        }
        let mut rest = ops;
        let first = rest.remove(0);
        proof {
            assert(first == all[0]);
            assert(rest@ =~= all.skip(1));
            assert(all.take(1).last() == all[0]);
        }
        match &first {
            GraphOperation::MergeIdentities { target, duplicate } => {
                if rest.len() > 0 {
                    return Err(GraphError::MergeOperationMustBeIsolated);
                }
                return match self.merge_identities(*target, *duplicate) {
                    Ok(_) => Ok(()),
                    Err(error) => Err(error),
                };
            },
            _ => {},
        }
        proof {
            assert(all.take(1).drop_last() =~= all.take(0));
            assert(all.take(0) =~= Seq::<GraphOperation<P, E, S>>::empty());
            assert(spec_run(start.view(), all.take(0)) == Ok::<StoreView<P, E, S>, GraphError>(start.view()));
            assert(spec_run(start.view(), all.take(1)) == spec_step(start.view(), first));
        }
        let mut journal = journal_new();
        let ghost mut snapshots: Seq<StoreRep<P, E, S>> = seq![start];
        match self.commit_op(first) {
            Ok(undo) => {
                journal_push(&mut journal, undo);
                proof {
                    snapshots = snapshots.push(self.rep());
                }
            },
            Err(error) => {
                proof {
                    lemma_run_error_persists(start.view(), all, 1);
                }
                return Err(error);
            },
        }
        let mut done: usize = 1;
        while rest.len() > 0
            invariant
                self.inv(),
                all.len() <= usize::MAX,
                1 <= done <= all.len(),
                done + rest@.len() == all.len(),
                rest@ == all.skip(done as int),
                journal_items(journal).len() == done,
                snapshots.len() == done + 1,
                snapshots[0] == start,
                snapshots.last() == self.rep(),
                start.view() == old(self).view(),
                start == old(self).rep(),
                start.wf(),
                all == ops@,
                !(all[0] is MergeIdentities),
                self.spec_node_count() <= start.nodes.len() + done,
                self.spec_edge_count() <= start.edges.len() + done,
                start.nodes.len() + all.len() < u32::MAX,
                start.edges.len() + all.len() < u32::MAX,
                spec_run(start.view(), all.take(done as int)) == Ok::<StoreView<P, E, S>, GraphError>(self.view()),
                forall|k: int|
                    0 <= k < journal_items(journal).len() ==> undo_applies(
                        snapshots[k + 1],
                        #[trigger] journal_items(journal)[k],
                    ) && spec_undo(snapshots[k + 1], journal_items(journal)[k]) == snapshots[k],
            decreases rest@.len(),
        {
            let op = rest.remove(0);
            proof {
                assert(op == all[done as int]);
                assert(all.take(done as int + 1).drop_last() =~= all.take(done as int));
                assert(rest@ =~= all.skip(done as int + 1));
            }
            match self.commit_op(op) {
                Ok(undo) => {
                    journal_push(&mut journal, undo);
                    proof {
                        snapshots = snapshots.push(self.rep());
                    }
                },
                Err(error) => {
                    proof {
                        lemma_run_error_persists(start.view(), all, done as int + 1);
                    }
                    self.rollback(&mut journal, Ghost(snapshots));
                    return Err(error);
                },
            }
            done += 1;
        }
        proof {
            assert(all.take(done as int) =~= all);
        }
        Ok(())
    }

    /// Merges a duplicate identity into a canonical target.
    ///
    /// Every relation between the duplicate and a third vertex moves to the
    /// target; one the target already has is coalesced; relations between
    /// the two identities are dropped with the duplicate. Only identity
    /// relations touch identities, so the event-state projection cannot
    /// change.
    pub fn merge_identities(&mut self, target: IdentityId, duplicate: IdentityId) -> (result: Result<MergeOutcome, GraphError>)
        requires
            old(self).inv(),
            old(self).spec_edge_count() < u32::MAX,
        ensures
            final(self).inv(),
            match old(self).view().merge_error(target, duplicate) {
                Some(error) => result == Err::<MergeOutcome, GraphError>(error) && final(self).view()
                    == old(self).view(),
                None => result matches Ok(outcome) && final(self).view() == old(self).view().merged(
                    target,
                    duplicate,
                ) && outcome.rewired_relations == old(self).view().added_by_merge(
                    Vertex::Identity(duplicate),
                    Vertex::Identity(target),
                ).len() && outcome.rewired_relations + outcome.coalesced_relations == old(
                    self,
                ).view().moved_by_merge(Vertex::Identity(duplicate), Vertex::Identity(target)).len()
                    && final(self).spec_node_count() + 1 == old(self).spec_node_count()
                    && final(self).spec_edge_count() <= old(self).spec_edge_count()
                    && final(self).spec_edge_count() + old(self).spec_degree(Vertex::Identity(duplicate))
                    == old(self).spec_edge_count() + outcome.rewired_relations,
            },
    {
        if target.0 == duplicate.0 {
            return Err(GraphError::SelfIdentityMerge { identity: target });
        }
        let target_vertex = Vertex::Identity(target);
        let duplicate_vertex = Vertex::Identity(duplicate);
        let ti = match self.checked_index(target_vertex) {
            Ok(index) => index,
            Err(error) => return Err(error),
        };
        let di = match self.checked_index(duplicate_vertex) {
            Ok(index) => index,
            Err(error) => return Err(error),
        };
        let ghost r0 = self.rep();
        let ghost v0 = self.view();
        proof {
            if ti == di {
                assert(r0.nodes[ti] == r0.nodes[di]);
            }
        }
        let incoming = raw_edges_directed(&self.raw_graph, di, false);
        let outgoing = raw_edges_directed(&self.raw_graph, di, true);
        let mut buffer = rewire_new();
        let ghost mut origin: Seq<u32> = Seq::empty();
        let mut k: usize = 0;
        while k < incoming.len()
            invariant
                r0 == self.rep(),
                r0.wf(),
                r0.edges.len() < u32::MAX,
                ti != di,
                k <= incoming@.len(),
                forall|m: int|
                    0 <= m < incoming@.len() ==> {
                        &&& r0.edges.contains_key(#[trigger] incoming@[m].0)
                        &&& r0.edges[incoming@[m].0] == (incoming@[m].1, incoming@[m].2, incoming@[m].3)
                        &&& incoming@[m].2 == di
                    },
                forall|a: int, b: int| 0 <= a < b < incoming@.len() ==> #[trigger] incoming@[a].0 != #[trigger] incoming@[b].0,
                rewire_items(buffer).len() == origin.len(),
                origin.no_duplicates(),
                forall|j: int|
                    0 <= j < rewire_items(buffer).len() ==> rewire_from(r0, ti, di, #[trigger] rewire_items(buffer)[j], origin[j])
                        && r0.edges[origin[j]].1 == di,
                forall|j: int| #![trigger origin[j]] 0 <= j < origin.len() ==> exists|m: int| 0 <= m < k && #[trigger] incoming@[m].0 == origin[j],
                forall|m: int|
                    0 <= m < k && edge_moves(r0, ti, di, #[trigger] incoming@[m].0) ==> origin.contains(incoming@[m].0),
            decreases incoming@.len() - k,
        {
            let (edge, source, _, data) = incoming[k];
            if source != ti && source != di {
                proof {
                    assert forall|j: int| 0 <= j < origin.len() implies origin[j] != edge by {
                        let m = choose|m: int| 0 <= m < k && #[trigger] incoming@[m].0 == origin[j];
                    }
                }
                proof {
                    lemma_origin_within_edges(origin, r0.edges.dom());
                }
                rewire_push(&mut buffer, (source, ti, data));
                proof {
                    let o = origin;
                    origin = origin.push(edge);
                    assert forall|j: int| #![trigger origin[j]] 0 <= j < origin.len() implies exists|m: int| 0 <= m < k + 1 && #[trigger] incoming@[m].0 == origin[j] by {
                        if j < o.len() {
                            let m = choose|m: int| 0 <= m < k && #[trigger] incoming@[m].0 == o[j];
                            assert(incoming@[m].0 == origin[j]);
                        } else {
                            assert(incoming@[k as int].0 == origin[j]);
                        }
                    }
                    assert(origin.contains(edge)) by {
                        assert(origin[origin.len() - 1] == edge);
                    }
                    assert forall|m: int| 0 <= m < k + 1 && edge_moves(r0, ti, di, #[trigger] incoming@[m].0) implies origin.contains(incoming@[m].0) by {
                        if m < k {
                            assert(o.contains(incoming@[m].0));
                            let j = choose|j: int| 0 <= j < o.len() && o[j] == incoming@[m].0;
                            assert(origin[j] == incoming@[m].0);
                        }
                    }
                }
            } else {
                proof {
                    assert forall|j: int| #![trigger origin[j]] 0 <= j < origin.len() implies exists|m: int| 0 <= m < k + 1 && #[trigger] incoming@[m].0 == origin[j] by {
                        let m = choose|m: int| 0 <= m < k && #[trigger] incoming@[m].0 == origin[j];
                    }
                }
            }
            k += 1;
        }
        let ghost incoming_count = origin.len();
        let mut k: usize = 0;
        while k < outgoing.len()
            invariant
                r0 == self.rep(),
                r0.wf(),
                r0.edges.len() < u32::MAX,
                ti != di,
                k <= outgoing@.len(),
                forall|m: int|
                    0 <= m < outgoing@.len() ==> {
                        &&& r0.edges.contains_key(#[trigger] outgoing@[m].0)
                        &&& r0.edges[outgoing@[m].0] == (outgoing@[m].1, outgoing@[m].2, outgoing@[m].3)
                        &&& outgoing@[m].1 == di
                    },
                forall|a: int, b: int| 0 <= a < b < outgoing@.len() ==> #[trigger] outgoing@[a].0 != #[trigger] outgoing@[b].0,
                rewire_items(buffer).len() == origin.len(),
                incoming_count <= origin.len(),
                origin.no_duplicates(),
                forall|j: int| 0 <= j < rewire_items(buffer).len() ==> rewire_from(r0, ti, di, #[trigger] rewire_items(buffer)[j], origin[j]),
                forall|j: int| 0 <= j < incoming_count ==> r0.edges[#[trigger] origin[j]].1 == di && r0.edges[origin[j]].0 != di,
                forall|j: int| #![trigger origin[j]] incoming_count <= j < origin.len() ==> exists|m: int| 0 <= m < k && #[trigger] outgoing@[m].0 == origin[j],
                forall|e: u32| edge_moves(r0, ti, di, e) && #[trigger] r0.edges[e].1 == di ==> origin.contains(e),
                forall|m: int|
                    0 <= m < k && edge_moves(r0, ti, di, #[trigger] outgoing@[m].0) ==> origin.contains(outgoing@[m].0),
            decreases outgoing@.len() - k,
        {
            let (edge, _, destination, data) = outgoing[k];
            if destination != ti && destination != di {
                proof {
                    assert forall|j: int| 0 <= j < origin.len() implies origin[j] != edge by {
                        if j >= incoming_count {
                            let m = choose|m: int| 0 <= m < k && #[trigger] outgoing@[m].0 == origin[j];
                        }
                    }
                }
                proof {
                    assert forall|j: int| 0 <= j < origin.len() implies r0.edges.dom().contains(#[trigger] origin[j]) by {
                        assert(rewire_from(r0, ti, di, rewire_items(buffer)[j], origin[j]));
                    }
                    lemma_origin_within_edges(origin, r0.edges.dom());
                }
                rewire_push(&mut buffer, (ti, destination, data));
                proof {
                    let o = origin;
                    origin = origin.push(edge);
                    assert forall|j: int| #![trigger origin[j]] incoming_count <= j < origin.len() implies exists|m: int| 0 <= m < k + 1 && #[trigger] outgoing@[m].0 == origin[j] by {
                        if j < o.len() {
                            let m = choose|m: int| 0 <= m < k && #[trigger] outgoing@[m].0 == o[j];
                            assert(outgoing@[m].0 == origin[j]);
                        } else {
                            assert(outgoing@[k as int].0 == origin[j]);
                        }
                    }
                    assert(origin.contains(edge)) by {
                        assert(origin[origin.len() - 1] == edge);
                    }
                    assert forall|e: u32| edge_moves(r0, ti, di, e) && #[trigger] r0.edges[e].1 == di implies origin.contains(e) by {
                        assert(o.contains(e));
                        let j = choose|j: int| 0 <= j < o.len() && o[j] == e;
                        assert(origin[j] == e);
                    }
                    assert forall|m: int| 0 <= m < k + 1 && edge_moves(r0, ti, di, #[trigger] outgoing@[m].0) implies origin.contains(outgoing@[m].0) by {
                        if m < k {
                            assert(o.contains(outgoing@[m].0));
                            let j = choose|j: int| 0 <= j < o.len() && o[j] == outgoing@[m].0;
                            assert(origin[j] == outgoing@[m].0);
                        }
                    }
                }
            } else {
                proof {
                    assert forall|j: int| #![trigger origin[j]] incoming_count <= j < origin.len() implies exists|m: int| 0 <= m < k + 1 && #[trigger] outgoing@[m].0 == origin[j] by {
                        let m = choose|m: int| 0 <= m < k && #[trigger] outgoing@[m].0 == origin[j];
                    }
                }
            }
            k += 1;
        }
        proof {
            assert forall|e: u32| #[trigger] edge_moves(r0, ti, di, e) implies origin.contains(e) by {
                if r0.edges[e].1 != di {
                    let m = choose|m: int| 0 <= m < outgoing@.len() && #[trigger] outgoing@[m].0 == e;
                    assert(edge_moves(r0, ti, di, outgoing@[m].0));
                } else {
                    assert(r0.edges[e].1 == di);
                }
            }
        }
        let rewires = rewire_as_slice(&buffer);
        if raw_node_weight(&self.raw_graph, di).is_none() {
            return Err(GraphError::CorruptIndex { vertex: duplicate_vertex });
        }
        let _ = raw_remove_node(&mut self.raw_graph, di);
        let _ = self.identities.remove(&duplicate.0);
        let ghost r1 = self.rep();
        proof {
            lemma_merge_removal(r0, r1, di, duplicate);
            lemma_degree_split(r0, r1, di);
            assert(r0.index_of(duplicate_vertex) == Some(di));
        }
        let ghost images = Seq::new(rewires@.len(), |j: int| edge_image(r0.nodes, rewires@[j]));
        let ghost kept = v0.kept_after_merge(duplicate_vertex);
        proof {
            lemma_rewire_plan(r0, r1, ti, di, target, duplicate, rewires@, origin, images);
        }
        let mut rewired_relations: usize = 0;
        let mut coalesced_relations: usize = 0;
        let ghost mut added: Seq<Edge> = Seq::empty();
        let mut j: usize = 0;
        while j < rewires.len()
            invariant
                j <= rewires@.len(),
                rewired_relations + coalesced_relations == j,
                self.inv(),
                self.rep().nodes == r1.nodes,
                self.rep().observations == r1.observations,
                self.rep().identities == r1.identities,
                self.rep().events == r1.events,
                self.rep().states == r1.states,
                r1.edges.len() + rewires@.len() <= r0.edges.len(),
                r0.edges.len() < u32::MAX,
                kept == r1.view().relations,
                images.len() == rewires@.len(),
                forall|m: int| 0 <= m < images.len() ==> #[trigger] images[m] == edge_image(r0.nodes, rewires@[m]),
                forall|a: int, b: int|
                    0 <= a < b < images.len() ==> !(#[trigger] images[a].source == #[trigger] images[b].source
                        && images[a].relation == images[b].relation && images[a].target == images[b].target),
                forall|a: int, b: int|
                    0 <= a < b < rewires@.len() && #[trigger] rewires@[a].2.relation == Relation::Supports
                        && #[trigger] rewires@[b].2.relation == Relation::Supports ==> rewires@[a].0 != rewires@[b].0,
                forall|m: int, e: u32|
                    0 <= m < rewires@.len() && #[trigger] rewires@[m].2.relation == Relation::Supports
                        && #[trigger] r1.edges.contains_key(e) ==> !(r1.edges[e].0 == rewires@[m].0
                        && r1.edges[e].2.relation == Relation::Supports),
                forall|m: int|
                    0 <= m < rewires@.len() ==> {
                        &&& r1.nodes.contains_key((#[trigger] rewires@[m]).0)
                        &&& r1.nodes.contains_key(rewires@[m].1)
                        &&& spec_valid_transition(rewires@[m].2.relation, r1.nodes[rewires@[m].0], r1.nodes[rewires@[m].1])
                        &&& edge_image(r1.nodes, rewires@[m]) == images[m]
                    },
                forall|e: u32| #[trigger] r1.edges.contains_key(e) ==> self.rep().edges.contains_key(e) && self.rep().edges[e] == r1.edges[e],
                forall|e: u32|
                    #[trigger] self.rep().edges.contains_key(e) ==> (r1.edges.contains_key(e) && self.rep().edges[e] == r1.edges[e])
                        || exists|m: int| 0 <= m < j && self.rep().edges[e] == #[trigger] rewires@[m],
                self.rep().edges.len() == r1.edges.len() + rewired_relations,
                self.rep().edges.dom().finite(),
                self.view().relations == kept.union(added.to_set()),
                added.len() == rewired_relations,
                added.no_duplicates(),
                forall|y: Edge| #[trigger] added.contains(y) <==> exists|m: int| 0 <= m < j && #[trigger] images[m] == y && !has_key(kept, y),
            decreases rewires@.len() - j,
        {
            let (source, destination, data) = rewires[j];
            let ghost cur = self.rep();
            let ghost y = images[j as int];
            proof {
                assert(edge_image(r1.nodes, rewires@[j as int]) == y);
                assert(self.rep().nodes[source] == y.source);
                assert(self.rep().nodes[destination] == y.target);
            }
            if self.relation_exists(source, data.relation, destination) {
                proof {
                    let w = choose|w: Edge| #![trigger self.view().relations.contains(w)] self.view().relations.contains(w) && w.source == y.source && w.relation == y.relation && w.target == y.target;
                    if added.to_set().contains(w) {
                        let m = choose|m: int| 0 <= m < j && #[trigger] images[m] == w && !has_key(kept, w);
                        assert(false);
                    }
                    assert(kept.contains(w));
                    assert(has_key(kept, y));
                    assert forall|z: Edge| #[trigger] added.contains(z) <==> exists|m: int| 0 <= m < j + 1 && #[trigger] images[m] == z && !has_key(kept, z) by {
                        if exists|m: int| 0 <= m < j + 1 && #[trigger] images[m] == z && !has_key(kept, z) {
                            let m = choose|m: int| 0 <= m < j + 1 && #[trigger] images[m] == z && !has_key(kept, z);
                            if m == j {
                                assert(false);
                            }
                        }
                    }
                }
                coalesced_relations = coalesced_relations + 1;
            } else {
                proof {
                    if has_key(kept, y) {
                        let w = choose|w: Edge| #![trigger kept.contains(w)] kept.contains(w) && w.source == y.source && w.relation == y.relation && w.target == y.target;
                        assert(self.view().relations.contains(w));
                    }
                    assert(cur.edges.len() < u32::MAX);
                }
                let edge = raw_add_edge(&mut self.raw_graph, source, destination, data);
                proof {
                    let next = self.rep();
                    lemma_edge_added(cur, next, edge, (source, destination, data));
                    let old_added = added;
                    added = added.push(y);
                    assert(added.to_set() =~= old_added.to_set().insert(y)) by {
                        assert forall|z: Edge| added.to_set().contains(z) implies old_added.to_set().insert(y).contains(z) by {
                            let k = choose|k: int| 0 <= k < added.len() && added[k] == z;
                            if k < old_added.len() {
                                assert(old_added[k] == z);
                            }
                        }
                        assert forall|z: Edge| old_added.to_set().insert(y).contains(z) implies added.to_set().contains(z) by {
                            if z == y {
                                assert(added[added.len() - 1] == z);
                            } else {
                                let k = choose|k: int| 0 <= k < old_added.len() && old_added[k] == z;
                                assert(added[k] == z);
                            }
                        }
                    }
                    assert(next.view().relations =~= kept.union(added.to_set()));
                    assert forall|a: int, b: int| 0 <= a < b < added.len() implies added[a] != added[b] by {
                        if b == added.len() - 1 {
                            assert(old_added.contains(added[a]));
                            let m = choose|m: int| 0 <= m < j && #[trigger] images[m] == added[a] && !has_key(kept, added[a]);
                        }
                    }
                    assert forall|z: Edge| #[trigger] added.contains(z) <==> exists|m: int| 0 <= m < j + 1 && #[trigger] images[m] == z && !has_key(kept, z) by {
                        if added.contains(z) && z != y {
                            assert(old_added.contains(z));
                        }
                        if exists|m: int| 0 <= m < j + 1 && #[trigger] images[m] == z && !has_key(kept, z) {
                            let m = choose|m: int| 0 <= m < j + 1 && #[trigger] images[m] == z && !has_key(kept, z);
                            if m < j {
                                assert(old_added.contains(z));
                                let k = choose|k: int| 0 <= k < old_added.len() && old_added[k] == z;
                                assert(added[k] == z);
                            } else {
                                assert(added[added.len() - 1] == z);
                            }
                        }
                    }
                    assert forall|e: u32| #[trigger] next.edges.contains_key(e) implies (r1.edges.contains_key(e) && next.edges[e] == r1.edges[e])
                        || exists|m: int| 0 <= m < j + 1 && next.edges[e] == #[trigger] rewires@[m] by {
                        if e == edge {
                            assert(next.edges[e] == rewires@[j as int]);
                        } else {
                            assert(cur.edges.contains_key(e));
                            if !(r1.edges.contains_key(e) && cur.edges[e] == r1.edges[e]) {
                                let m = choose|m: int| 0 <= m < j && cur.edges[e] == #[trigger] rewires@[m];
                                assert(next.edges[e] == rewires@[m]);
                            }
                        }
                    }
                    assert forall|e1: u32, e2: u32|
                        #![trigger next.edges[e1], next.edges[e2]]
                        next.edges.contains_key(e1) && next.edges.contains_key(e2) && next.edges[e1].0
                            == next.edges[e2].0 && next.edges[e1].2.relation == next.edges[e2].2.relation && (
                        next.edges[e1].1 == next.edges[e2].1 || next.edges[e1].2.relation == Relation::Supports)
                            implies e1 == e2 by {
                        if e1 != e2 && (e1 == edge || e2 == edge) {
                            let other = if e1 == edge { e2 } else { e1 };
                            assert(cur.edges.contains_key(other));
                            let x = edge_image(cur.nodes, cur.edges[other]);
                            assert(cur.view().relations.contains(x));
                            if cur.edges[other].1 == destination {
                                assert(self.view().relations.contains(x));
                                assert(cur.view().has_relation(y.source, y.relation, y.target));
                                assert(false);
                            } else {
                                assert(data.relation == Relation::Supports);
                                if r1.edges.contains_key(other) && cur.edges[other] == r1.edges[other] {
                                    assert(false);
                                } else {
                                    let m = choose|m: int| 0 <= m < j && cur.edges[other] == #[trigger] rewires@[m];
                                    assert(rewires@[m].2.relation == Relation::Supports);
                                    assert(false);
                                }
                            }
                        }
                    }
                    assert forall|e: u32| #[trigger] next.edges.contains_key(e) implies {
                        &&& next.nodes.contains_key(next.edges[e].0)
                        &&& next.nodes.contains_key(next.edges[e].1)
                        &&& spec_valid_transition(next.edges[e].2.relation, next.nodes[next.edges[e].0], next.nodes[next.edges[e].1])
                    } by {
                        if e != edge {
                            assert(cur.edges.contains_key(e));
                        }
                    }
                    assert(next.edges_sound());
                }
                rewired_relations = rewired_relations + 1;
            }
            j += 1;
        }
        proof {
            let added_set = v0.added_by_merge(duplicate_vertex, target_vertex);
            assert(added.to_set() =~= added_set) by {
                assert forall|z: Edge| added.to_set().contains(z) <==> added_set.contains(z) by {
                    if added.to_set().contains(z) {
                        let m = choose|m: int| 0 <= m < j && #[trigger] images[m] == z && !has_key(kept, z);
                        assert(images.contains(z));
                    }
                    if added_set.contains(z) {
                        assert(images.contains(z));
                        let m = choose|m: int| 0 <= m < images.len() && images[m] == z;
                    }
                }
            }
            added.unique_seq_to_set();
            images.unique_seq_to_set();
            assert(images.to_set() =~= v0.moved_by_merge(duplicate_vertex, target_vertex));
            assert(self.view().identities == r1.view().identities);
            assert(self.view().observations == r1.view().observations);
            assert(self.view().events == r1.view().events);
            assert(self.view().states == r1.view().states);
        }
        Ok(MergeOutcome { rewired_relations, coalesced_relations })
    }

    /// The observations with a support relation into node `target`, each
    /// once, with the edges and nodes that carry them.
    fn support_sources(&self, target: u32) -> (found: (Vec<ObservationId>, Ghost<Seq<u32>>, Ghost<Seq<u32>>))
        requires
            self.inv(),
            self.rep().nodes.contains_key(target),
        ensures
            found.0@.len() == found.1@.len(),
            found.0@.len() == found.2@.len(),
            forall|j: int|
                0 <= j < found.0@.len() ==> {
                    &&& self.rep().edges.contains_key(#[trigger] found.1@[j])
                    &&& self.rep().edges[found.1@[j]].0 == found.2@[j]
                    &&& self.rep().edges[found.1@[j]].1 == target
                    &&& self.rep().edges[found.1@[j]].2.relation == Relation::Supports
                    &&& self.rep().nodes[found.2@[j]] == Vertex::Observation(found.0@[j])
                },
            found.0@.no_duplicates(),
            forall|e: u32|
                #![trigger self.rep().edges[e]]
                self.rep().edges.contains_key(e) && self.rep().edges[e].1 == target
                    && self.rep().edges[e].2.relation == Relation::Supports ==> found.1@.contains(e),
    {
        let ghost r = self.rep();
        let incoming = raw_edges_directed(&self.raw_graph, target, false);
        let mut ids: Vec<ObservationId> = Vec::new();
        let ghost mut eids: Seq<u32> = Seq::empty();
        let ghost mut srcs: Seq<u32> = Seq::empty();
        let ghost mut via: Seq<int> = Seq::empty();
        let mut k: usize = 0;
        while k < incoming.len()
            invariant
                r == self.rep(),
                r.wf(),
                r.nodes.contains_key(target),
                k <= incoming@.len(),
                forall|m: int|
                    0 <= m < incoming@.len() ==> {
                        &&& r.edges.contains_key(#[trigger] incoming@[m].0)
                        &&& r.edges[incoming@[m].0] == (incoming@[m].1, incoming@[m].2, incoming@[m].3)
                        &&& incoming@[m].2 == target
                    },
                forall|a: int, b: int| 0 <= a < b < incoming@.len() ==> #[trigger] incoming@[a].0 != #[trigger] incoming@[b].0,
                ids@.len() == eids.len(),
                ids@.len() == srcs.len(),
                ids@.len() == via.len(),
                forall|j: int|
                    0 <= j < ids@.len() ==> {
                        &&& r.edges.contains_key(#[trigger] eids[j])
                        &&& r.edges[eids[j]].0 == srcs[j]
                        &&& r.edges[eids[j]].1 == target
                        &&& r.edges[eids[j]].2.relation == Relation::Supports
                        &&& r.nodes[srcs[j]] == Vertex::Observation(ids@[j])
                        &&& 0 <= via[j] < k
                        &&& incoming@[via[j]].0 == eids[j]
                    },
                ids@.no_duplicates(),
                forall|m: int|
                    0 <= m < k && (#[trigger] incoming@[m]).3.relation == Relation::Supports ==> eids.contains(incoming@[m].0),
            decreases incoming@.len() - k,
        {
            let (edge, source, _, data) = incoming[k];
            let ghost old_eids = eids;
            proof {
                assert(r.edges.contains_key(incoming@[k as int].0));
                assert(r.edges[edge] == (source, target, data));
                assert(r.nodes.contains_key(source));
                assert(spec_valid_transition(r.edges[edge].2.relation, r.nodes[r.edges[edge].0], r.nodes[r.edges[edge].1]));
            }
            if data.relation == Relation::Supports {
                match raw_node_weight(&self.raw_graph, source) {
                    Some(Vertex::Observation(oid)) => {
                        proof {
                            assert forall|j: int| 0 <= j < ids@.len() implies ids@[j] != oid by {
                                assert(r.edges.contains_key(eids[j]));
                                if ids@[j] == oid {
                                    assert(r.index_of(r.nodes[srcs[j]]) == Some(srcs[j]));
                                    assert(r.index_of(r.nodes[source]) == Some(source));
                                    assert(srcs[j] == source);
                                    assert(eids[j] == edge);
                                    assert(incoming@[via[j]].0 == incoming@[k as int].0);
                                }
                            }
                        }
                        let ghost old_ids = ids@;
                        ids.push(oid);
                        proof {
                            eids = eids.push(edge);
                            srcs = srcs.push(source);
                            via = via.push(k as int);
                            assert forall|a: int, b: int| 0 <= a < b < ids@.len() implies ids@[a] != ids@[b] by {
                                assert(ids@[a] == old_ids[a]);
                                if b < old_ids.len() {
                                    assert(ids@[b] == old_ids[b]);
                                }
                            }
                            assert(eids[eids.len() - 1] == edge);
                        }
                    },
                    _ => {},
                }
            }
            proof {
                assert forall|m: int| 0 <= m < k + 1 && (#[trigger] incoming@[m]).3.relation == Relation::Supports implies eids.contains(incoming@[m].0) by {
                    if m == k {
                        assert(eids[eids.len() - 1] == edge);
                    } else {
                        assert(old_eids.contains(incoming@[m].0));
                        let i = choose|i: int| 0 <= i < old_eids.len() && old_eids[i] == incoming@[m].0;
                        assert(eids[i] == old_eids[i]);
                    }
                }
            }
            k += 1;
        }
        proof {
            assert forall|e: u32|
                #![trigger r.edges[e]]
                r.edges.contains_key(e) && r.edges[e].1 == target && r.edges[e].2.relation == Relation::Supports implies eids.contains(e) by {
                let m = choose|m: int| 0 <= m < incoming@.len() && #[trigger] incoming@[m].0 == e;
                assert(incoming@[m].3.relation == Relation::Supports);
            }
        }
        (ids, Ghost(eids), Ghost(srcs))
    }

    /// Borrows the observations supporting an identity, each once, in no
    /// stated order; an unregistered identity is reported as not found.
    pub fn supporting_observations(&self, identity: IdentityId) -> (result: Result<Vec<&Observation<P>>, GraphError>)
        requires
            self.inv(),
        ensures
            !self.view().contains_vertex(Vertex::Identity(identity)) ==> result == Err::<
                Vec<&Observation<P>>,
                GraphError,
            >(GraphError::VertexNotFound { vertex: Vertex::Identity(identity) }),
            self.view().contains_vertex(Vertex::Identity(identity)) ==> result is Ok,
            result matches Ok(support) ==> forall|k: int|
                0 <= k < support@.len() ==> {
                    &&& self.view().observations.contains_key((#[trigger] support@[k]).id.0)
                    &&& *support@[k] == self.view().observations[support@[k].id.0]
                    &&& self.view().supports(support@[k].id, identity)
                },
            result matches Ok(support) ==> forall|a: int, b: int|
                0 <= a < b < support@.len() ==> (#[trigger] support@[a]).id != (#[trigger] support@[b]).id,
            result matches Ok(support) ==> forall|o: ObservationId|
                #[trigger] self.view().supports(o, identity) ==> support@.map_values(
                    |x: &Observation<P>| x.id,
                ).contains(o),
    {
        let vertex = Vertex::Identity(identity);
        let target = match self.checked_index(vertex) {
            Ok(index) => index,
            Err(error) => return Err(error),
        };
        let ghost r = self.rep();
        let ghost v = self.view();
        let (ids, Ghost(eids), Ghost(srcs)) = self.support_sources(target);
        proof {
            assert forall|j: int| 0 <= j < ids@.len() implies {
                &&& v.observations.contains_key((#[trigger] ids@[j]).0)
                &&& v.supports(ids@[j], identity)
            } by {
                assert(r.edges.contains_key(eids[j]));
                assert(r.nodes.contains_key(srcs[j]));
                assert(r.index_of(r.nodes[srcs[j]]) == Some(srcs[j]));
                let x = edge_image(r.nodes, r.edges[eids[j]]);
                assert(v.relations.contains(x));
            }
        }
        let mut support: Vec<&Observation<P>> = Vec::new();
        let mut j: usize = 0;
        while j < ids.len()
            invariant
                v == self.view(),
                r == self.rep(),
                r.wf(),
                j <= ids@.len(),
                support@.len() == j,
                forall|m: int| 0 <= m < ids@.len() ==> v.observations.contains_key((#[trigger] ids@[m]).0),
                forall|m: int| 0 <= m < ids@.len() ==> r.observations.contains_key((#[trigger] ids@[m]).0),
                forall|m: int| 0 <= m < j ==> (#[trigger] support@[m]).id == ids@[m] && *support@[m] == v.observations[ids@[m].0],
            decreases ids@.len() - j,
        {
            let id = ids[j];
            proof {
                assert(r.observations.contains_key(ids@[j as int].0));
            }
            match self.observations.get(&id.0) {
                Some(entry) => {
                    support.push(&entry.1);
                },
                None => {},
            }
            j += 1;
        }
        proof {
            assert forall|o: ObservationId| #[trigger] self.view().supports(o, identity) implies support@.map_values(
                |x: &Observation<P>| x.id,
            ).contains(o) by {
                let x = choose|x: Edge| #![trigger v.relations.contains(x)] v.relations.contains(x) && x.source == Vertex::Observation(o) && x.relation == Relation::Supports && x.target == Vertex::Identity(identity);
                let e = choose|e: u32| #![trigger r.edges[e]] r.edges.contains_key(e) && edge_image(r.nodes, r.edges[e]) == x;
                assert(r.nodes.contains_key(r.edges[e].1));
                assert(r.index_of(r.nodes[r.edges[e].1]) == Some(r.edges[e].1));
                assert(r.edges[e].1 == target);
                assert(eids.contains(e));
                let k = choose|k: int| 0 <= k < eids.len() && eids[k] == e;
                assert(support@[k].id == ids@[k]);
                assert(support@.map_values(|x: &Observation<P>| x.id)[k] == o);
            }
            assert forall|a: int, b: int| 0 <= a < b < support@.len() implies (#[trigger] support@[a]).id != (#[trigger] support@[b]).id by {
                assert(ids@[a] != ids@[b]);
            }
            assert forall|k: int| 0 <= k < support@.len() implies {
                &&& self.view().observations.contains_key((#[trigger] support@[k]).id.0)
                &&& *support@[k] == self.view().observations[support@[k].id.0]
                &&& self.view().supports(support@[k].id, identity)
            } by {
                assert(support@[k].id == ids@[k]);
                assert(v.observations.contains_key(ids@[k].0));
                assert(v.supports(ids@[k], identity));
            }
        }
        Ok(support)
    }

    /// Identifiers of all registered identities, each once.
    pub fn identity_ids(&self) -> (ids: Vec<IdentityId>)
        ensures
            ids@.len() == self.view().identities.dom().len(),
            ids@.no_duplicates(),
            forall|k: int| 0 <= k < ids@.len() ==> self.view().identities.contains_key(#[trigger] ids@[k].0),
            forall|raw: u64| #[trigger] self.view().identities.contains_key(raw) ==> ids@.contains(IdentityId(raw)),
    {
        let ghost keys = vstd::std_specs::btree::spec_keys_iter(&self.identities).remaining();
        let mut result: Vec<IdentityId> = Vec::new();
        for key in it: self.identities.keys()
            invariant
                keys == vstd::std_specs::btree::spec_keys_iter(&self.identities).remaining(),
                it.seq() == keys,
                result@.len() == it.index(),
                forall|k: int| 0 <= k < it.index() ==> result@[k].0 == *keys[k],
        {
            result.push(IdentityId(*key));
        }
        proof {
            assert(keys.len() == result@.len());
            assert(self.view().identities.dom() =~= self.identities@.dom());
            assert forall|k: int| 0 <= k < result@.len() implies self.view().identities.contains_key(#[trigger] result@[k].0) by {
                assert(keys.unref()[k] == *keys[k]);
                assert(keys.unref().to_set().contains(keys.unref()[k]));
            }
            assert forall|a: int, b: int| 0 <= a < b < result@.len() implies result@[a] != result@[b] by {
                assert(keys.unref()[a] == *keys[a]);
                assert(keys.unref()[b] == *keys[b]);
                assert(keys.unref().no_duplicates());
            }
            assert forall|raw: u64| #[trigger] self.view().identities.contains_key(raw) implies result@.contains(IdentityId(raw)) by {
                assert(keys.unref().to_set().contains(raw));
                let k = choose|k: int| 0 <= k < keys.unref().len() && keys.unref()[k] == raw;
                assert(keys.unref()[k] == *keys[k]);
                assert(result@[k] == IdentityId(raw));
            }
        }
        result
    }

    /// Atomically commits an observation with the identity it was resolved
    /// to: an existing identity gains a support relation, a new one is
    /// created in the same batch; nothing is committed when either step is
    /// refused.
    pub fn materialize_observation(&mut self, observation: Observation<P>, assignment: IdentityAssignment) -> (result: Result<IdentityId, GraphError>)
        requires
            old(self).inv(),
            old(self).spec_node_count() + 3 < u32::MAX,
            old(self).spec_edge_count() + 3 < u32::MAX,
        ensures
            final(self).inv(),
            match spec_run(old(self).view(), materialize_ops::<P, E, S>(observation, assignment)) {
                Ok(next) => result == Ok::<IdentityId, GraphError>(assigned_identity(assignment)) && final(self).view() == next,
                Err(error) => result == Err::<IdentityId, GraphError>(error) && final(self).view() == old(self).view(),
            },
    {
        let id = observation.id;
        let timestamp = observation.timestamp;
        let ghost ops = materialize_ops::<P, E, S>(observation, assignment);
        match assignment {
            IdentityAssignment::Existing(identity) => {
                let batch = vec![
                    GraphOperation::CommitObservation(observation),
                    GraphOperation::CommitRelation {
                        source: Vertex::Observation(id),
                        relation: Relation::Supports,
                        target: Vertex::Identity(identity),
                        created_at: timestamp,
                    },
                ];
                proof {
                    assert(batch@ =~= ops);
                }
                match self.apply_batch(batch) {
                    Ok(()) => Ok(identity),
                    Err(error) => Err(error),
                }
            },
            IdentityAssignment::New(identity) => {
                let batch = vec![
                    GraphOperation::CommitObservation(observation),
                    GraphOperation::CommitIdentity { id: identity, created_at: timestamp },
                    GraphOperation::CommitRelation {
                        source: Vertex::Observation(id),
                        relation: Relation::Supports,
                        target: Vertex::Identity(identity),
                        created_at: timestamp,
                    },
                ];
                proof {
                    assert(batch@ =~= ops);
                }
                match self.apply_batch(batch) {
                    Ok(()) => Ok(identity),
                    Err(error) => Err(error),
                }
            },
        }
    }

    /// The relations leaving `vertex` as (source, relation, target), each
    /// once, in no stated order; none for an unregistered vertex.
    pub fn out_relations(&self, vertex: Vertex) -> (relations: Vec<(Vertex, Relation, Vertex)>)
        requires
            self.inv(),
        ensures
            forall|k: int|
                0 <= k < relations@.len() ==> (#[trigger] relations@[k]).0 == vertex
                    && self.view().has_relation(vertex, relations@[k].1, relations@[k].2),
            relations@.no_duplicates(),
            forall|relation: Relation, target: Vertex|
                #[trigger] self.view().has_relation(vertex, relation, target) ==> relations@.contains(
                    (vertex, relation, target),
                ),
    {
        let ghost r = self.rep();
        let ghost v = self.view();
        let mut result: Vec<(Vertex, Relation, Vertex)> = Vec::new();
        let source = match self.stored_index(vertex) {
            Some(index) => index,
            None => {
                proof {
                    assert forall|relation: Relation, target: Vertex|
                        #[trigger] v.has_relation(vertex, relation, target) implies false by {
                        let x = choose|x: Edge| #![trigger v.relations.contains(x)] v.relations.contains(x) && x.source == vertex && x.relation == relation && x.target == target;
                        let e = choose|e: u32| #![trigger r.edges[e]] r.edges.contains_key(e) && edge_image(r.nodes, r.edges[e]) == x;
                        assert(r.nodes.contains_key(r.edges[e].0));
                        assert(r.index_of(r.nodes[r.edges[e].0]) == Some(r.edges[e].0));
                    }
                }
                return result;
            },
        };
        proof {
            assert(r.nodes[source] == vertex);
        }
        let outgoing = raw_edges_directed(&self.raw_graph, source, true);
        let mut k: usize = 0;
        while k < outgoing.len()
            invariant
                r == self.rep(),
                v == self.view(),
                r.wf(),
                r.nodes.contains_key(source),
                r.nodes[source] == vertex,
                k <= outgoing@.len(),
                forall|m: int|
                    0 <= m < outgoing@.len() ==> {
                        &&& r.edges.contains_key(#[trigger] outgoing@[m].0)
                        &&& r.edges[outgoing@[m].0] == (outgoing@[m].1, outgoing@[m].2, outgoing@[m].3)
                        &&& outgoing@[m].1 == source
                    },
                forall|a: int, b: int| 0 <= a < b < outgoing@.len() ==> #[trigger] outgoing@[a].0 != #[trigger] outgoing@[b].0,
                result@.len() == k,
                forall|m: int|
                    0 <= m < k ==> #[trigger] result@[m] == (vertex, outgoing@[m].3.relation, r.nodes[outgoing@[m].2]),
            decreases outgoing@.len() - k,
        {
            let (_, _, destination, data) = outgoing[k];
            proof {
                assert(r.edges.contains_key(outgoing@[k as int].0));
                assert(r.nodes.contains_key(destination));
            }
            match raw_node_weight(&self.raw_graph, destination) {
                Some(target) => {
                    result.push((vertex, data.relation, target));
                },
                None => {},
            }
            k += 1;
        }
        proof {
            assert forall|m: int| 0 <= m < result@.len() implies (#[trigger] result@[m]).0 == vertex
                && v.has_relation(vertex, result@[m].1, result@[m].2) by {
                let x = edge_image(r.nodes, r.edges[outgoing@[m].0]);
                assert(v.relations.contains(x));
            }
            assert forall|a: int, b: int| 0 <= a < b < result@.len() implies result@[a] != result@[b] by {
                let ea = outgoing@[a].0;
                let eb = outgoing@[b].0;
                assert(r.edges.contains_key(ea) && r.edges.contains_key(eb));
                if result@[a] == result@[b] {
                    assert(r.nodes.contains_key(r.edges[ea].1));
                    assert(r.nodes.contains_key(r.edges[eb].1));
                    assert(r.index_of(r.nodes[r.edges[ea].1]) == Some(r.edges[ea].1));
                    assert(r.index_of(r.nodes[r.edges[eb].1]) == Some(r.edges[eb].1));
                    assert(ea == eb);
                }
            }
            assert forall|relation: Relation, target: Vertex|
                #[trigger] v.has_relation(vertex, relation, target) implies result@.contains((vertex, relation, target)) by {
                let x = choose|x: Edge| #![trigger v.relations.contains(x)] v.relations.contains(x) && x.source == vertex && x.relation == relation && x.target == target;
                let e = choose|e: u32| #![trigger r.edges[e]] r.edges.contains_key(e) && edge_image(r.nodes, r.edges[e]) == x;
                assert(r.nodes.contains_key(r.edges[e].0));
                assert(r.index_of(r.nodes[r.edges[e].0]) == Some(r.edges[e].0));
                let m = choose|m: int| 0 <= m < outgoing@.len() && #[trigger] outgoing@[m].0 == e;
                assert(result@[m] == (vertex, relation, target));
            }
        }
        result
    }

    /// Whether the causal relations contain a directed cycle.
    pub fn has_causal_cycle(&self) -> (cyclic: bool)
        requires
            self.inv(),
        ensures
            cyclic == self.view().has_causal_cycle(),
    {
        let ghost r = self.rep();
        let ghost v = self.view();
        let cyclic = raw_has_causal_cycle(&self.raw_graph);
        proof {
            if cyclic {
                let walk = choose|walk: Seq<u32>| #[trigger] is_causal_walk(r.edges, walk);
                lemma_walk_to_chain(r, walk);
            }
            if v.has_causal_cycle() {
                let chain = choose|walk: Seq<Edge>| #[trigger] v.is_causal_cycle(walk);
                lemma_chain_to_walk(r, chain);
            }
        }
        cyclic
    }

    /// Counts the support edges leaving (`outgoing`) or entering node
    /// `node`; an observation has at most one.
    fn count_supports(&self, node: u32, outgoing: bool) -> (count: usize)
        requires
            self.inv(),
            self.rep().nodes.contains_key(node),
        ensures
            count == 0 <==> !exists|e: u32| #[trigger] support_at(self.rep(), e, node, outgoing),
            outgoing ==> count <= 1,
    {
        let ghost r = self.rep();
        let list = raw_edges_directed(&self.raw_graph, node, outgoing);
        let mut count: usize = 0;
        let ghost mut first: int = 0;
        let mut k: usize = 0;
        while k < list.len()
            invariant
                r == self.rep(),
                r.wf(),
                k <= list@.len(),
                count <= k,
                outgoing ==> count <= 1,
                forall|m: int|
                    0 <= m < list@.len() ==> {
                        &&& r.edges.contains_key(#[trigger] list@[m].0)
                        &&& r.edges[list@[m].0] == (list@[m].1, list@[m].2, list@[m].3)
                        &&& if outgoing {
                            list@[m].1 == node
                        } else {
                            list@[m].2 == node
                        }
                    },
                forall|a: int, b: int| 0 <= a < b < list@.len() ==> #[trigger] list@[a].0 != #[trigger] list@[b].0,
                count == 0 <==> forall|m: int| 0 <= m < k ==> (#[trigger] list@[m]).3.relation != Relation::Supports,
                count > 0 ==> 0 <= first < k && list@[first].3.relation == Relation::Supports,
            decreases list@.len() - k,
        {
            if list[k].3.relation == Relation::Supports {
                proof {
                    if outgoing && count > 0 {
                        assert(r.edges.contains_key(list@[first].0));
                        assert(r.edges.contains_key(list@[k as int].0));
                        assert(list@[first].0 == list@[k as int].0);
                    }
                    if count == 0 {
                        first = k as int;
                    }
                }
                count = count + 1;
            }
            k += 1;
        }
        proof {
            if exists|e: u32| #[trigger] support_at(r, e, node, outgoing) {
                let e = choose|e: u32| #[trigger] support_at(r, e, node, outgoing);
                let m = choose|m: int| 0 <= m < list@.len() && #[trigger] list@[m].0 == e;
                assert(list@[m].3.relation == Relation::Supports);
            }
            if count > 0 {
                assert(support_at(r, list@[first].0, node, outgoing));
            }
        }
        count
    }

    /// Checks that support partitions the observations, reporting one
    /// observation without an owner or one identity without support when
    /// it does not.
    pub fn check_observation_partition(&self) -> (result: Result<(), InvariantViolation>)
        requires
            self.inv(),
        ensures
            result is Ok <==> self.view().observations_partitioned(),
            result matches Err(violation) ==> match violation {
                InvariantViolation::ObservationSupportCardinality { observation, actual } => actual == 0
                    && self.view().observations.contains_key(observation.0) && self.view().support_owner(
                    Vertex::Observation(observation),
                ) is None,
                InvariantViolation::IdentitySupportCardinality { identity, actual } => actual == 0
                    && self.view().identities.contains_key(identity.0) && !self.view().is_supported(
                    identity,
                ),
                _ => false,
            },
    {
        let ghost r = self.rep();
        let ghost v = self.view();
        let edges = raw_edge_references(&self.raw_graph);
        let mut k: usize = 0;
        while k < edges.len()
            invariant
                r == self.rep(),
                r.wf(),
                k <= edges@.len(),
                forall|m: int|
                    0 <= m < edges@.len() ==> {
                        &&& r.edges.contains_key(#[trigger] edges@[m].0)
                        &&& r.edges[edges@[m].0] == (edges@[m].1, edges@[m].2, edges@[m].3)
                    },
            decreases edges@.len() - k,
        {
            let (_, source, target, data) = edges[k];
            proof {
                assert(r.edges.contains_key(edges@[k as int].0));
                assert(spec_valid_transition(data.relation, r.nodes[source], r.nodes[target]));
            }
            if data.relation == Relation::Supports {
                let origin = raw_node_weight(&self.raw_graph, source);
                let destination = raw_node_weight(&self.raw_graph, target);
                match (origin, destination) {
                    (Some(Vertex::Observation(_)), Some(Vertex::Identity(_))) => {},
                    (Some(origin), Some(destination)) => {
                        return Err(InvariantViolation::InvalidSupportEndpoints { origin, target: destination });
                    },
                    _ => {},
                }
            }
            k += 1;
        }
        let nodes = raw_node_indices(&self.raw_graph);
        let mut k: usize = 0;
        while k < nodes.len()
            invariant
                r == self.rep(),
                v == self.view(),
                r.wf(),
                k <= nodes@.len(),
                forall|i: u32| #[trigger] nodes@.contains(i) <==> r.nodes.contains_key(i),
                forall|m: int|
                    0 <= m < k ==> match r.nodes[#[trigger] nodes@[m]] {
                        Vertex::Observation(o) => v.support_owner(Vertex::Observation(o)) is Some,
                        Vertex::Identity(id) => v.is_supported(id),
                        _ => true,
                    },
            decreases nodes@.len() - k,
        {
            let node = nodes[k];
            proof {
                assert(nodes@.contains(nodes@[k as int]));
            }
            match raw_node_weight(&self.raw_graph, node) {
                Some(Vertex::Observation(o)) => {
                    let actual = self.count_supports(node, true);
                    proof {
                        lemma_owner_iff_edge(r, node, o);
                        assert(r.index_of(r.nodes[node]) == Some(node));
                    }
                    if actual != 1 {
                        proof {
                            assert(v.observations.contains_key(o.0));
                            assert(ObservationId(o.0) == o);
                        }
                        return Err(InvariantViolation::ObservationSupportCardinality { observation: o, actual });
                    }
                },
                Some(Vertex::Identity(id)) => {
                    let actual = self.count_supports(node, false);
                    proof {
                        lemma_supported_iff_edge(r, node, id);
                        assert(r.index_of(r.nodes[node]) == Some(node));
                    }
                    if actual == 0 {
                        proof {
                            assert(v.identities.contains_key(id.0));
                            assert(IdentityId(id.0) == id);
                        }
                        return Err(InvariantViolation::IdentitySupportCardinality { identity: id, actual });
                    }
                },
                _ => {},
            }
            k += 1;
        }
        proof {
            assert forall|raw: u64| #[trigger] v.observations.contains_key(raw) implies v.support_owner(
                Vertex::Observation(ObservationId(raw)),
            ) is Some by {
                let i = r.observations[raw].0;
                assert(nodes@.contains(i));
                let m = choose|m: int| 0 <= m < nodes@.len() && nodes@[m] == i;
            }
            assert forall|raw: u64| #[trigger] v.identities.contains_key(raw) implies v.is_supported(IdentityId(raw)) by {
                let i = r.identities[raw].0;
                assert(nodes@.contains(i));
                let m = choose|m: int| 0 <= m < nodes@.len() && nodes@[m] == i;
            }
        }
        Ok(())
    }

    /// Every identity node is the one its index entry names, and every index
    /// entry names a node of its own identity.
    pub closed spec fn identities_canonical(&self) -> bool {
        &&& forall|i: u32|
            #[trigger] self.rep().nodes.contains_key(i) && self.rep().nodes[i] is Identity ==> self.rep().index_of(
                self.rep().nodes[i],
            ) == Some(i)
        &&& forall|raw: u64|
            #[trigger] self.rep().identities.contains_key(raw) ==> self.rep().nodes.contains_key(
                self.rep().identities[raw].0,
            ) && self.rep().nodes[self.rep().identities[raw].0] == Vertex::Identity(IdentityId(raw))
    }

    /// A well-formed store has canonical identities.
    pub proof fn lemma_identities_canonical(&self)
        requires
            self.inv(),
        ensures
            self.identities_canonical(),
    {
    }

    /// Checks that identity nodes and the identity index agree, reporting a
    /// node its entry does not name or an entry that does not name its node.
    pub fn check_identity_index(&self) -> (result: Result<(), InvariantViolation>)
        requires
            self.inv(),
        ensures
            result is Ok,
    {
        let ghost r = self.rep();
        let nodes = raw_node_indices(&self.raw_graph);
        let mut k: usize = 0;
        while k < nodes.len()
            invariant
                r == self.rep(),
                r.wf(),
                k <= nodes@.len(),
                forall|i: u32| #[trigger] nodes@.contains(i) <==> r.nodes.contains_key(i),
            decreases nodes@.len() - k,
        {
            let node = nodes[k];
            proof {
                assert(nodes@.contains(nodes@[k as int]));
            }
            match raw_node_weight(&self.raw_graph, node) {
                Some(Vertex::Identity(id)) => {
                    match self.stored_index(Vertex::Identity(id)) {
                        Some(index) => {
                            if index != node {
                                return Err(InvariantViolation::NonCanonicalIdentity { identity: id });
                            }
                        },
                        None => {
                            return Err(InvariantViolation::NonCanonicalIdentity { identity: id });
                        },
                    }
                },
                _ => {},
            }
            k += 1;
        }
        let ids = self.identity_ids();
        let mut k: usize = 0;
        while k < ids.len()
            invariant
                r == self.rep(),
                r.wf(),
                k <= ids@.len(),
                forall|m: int| 0 <= m < ids@.len() ==> r.identities.contains_key(#[trigger] ids@[m].0),
            decreases ids@.len() - k,
        {
            let id = ids[k];
            proof {
                assert(r.identities.contains_key(ids@[k as int].0));
            }
            match self.identities.get(&id.0) {
                Some(entry) => {
                    match raw_node_weight(&self.raw_graph, entry.0) {
                        Some(vertex) => {
                            if vertex != Vertex::Identity(IdentityId(id.0)) {
                                return Err(InvariantViolation::StaleIdentityIndex { identity: id });
                            }
                        },
                        None => {
                            return Err(InvariantViolation::StaleIdentityIndex { identity: id });
                        },
                    }
                },
                None => {},
            }
            k += 1;
        }
        Ok(())
    }

    /// Reports whether a vertex is registered: `Ok(Some(vertex))` when it
    /// is, `Ok(None)` otherwise.
    pub fn vertex_type(&self, vertex: Vertex) -> (result: Result<Option<Vertex>, GraphError>)
        requires
            self.inv(),
        ensures
            self.view().contains_vertex(vertex) ==> result == Ok::<Option<Vertex>, GraphError>(
                Some(vertex),
            ),
            !self.view().contains_vertex(vertex) ==> result == Ok::<Option<Vertex>, GraphError>(
                None,
            ),
    {
        if self.contains_vertex(vertex) {
            match self.checked_index(vertex) {
                Ok(_) => Ok(Some(vertex)),
                Err(error) => Err(error),
            }
        } else {
            Ok(None)
        }
    }
}

impl<P, E, S> KnowledgeGraph for PetGraphStore<P, E, S> {
    type ObservationPayload = P;
    type EventPayload = E;
    type StatePayload = S;
    type Error = GraphError;

    open spec fn well_formed(&self) -> bool {
        self.inv()
    }

    open spec fn admits_batch(&self, len: nat) -> bool {
        &&& self.inv()
        &&& self.spec_node_count() + len < u32::MAX
        &&& self.spec_edge_count() + len < u32::MAX
    }

    fn vertex_type(&self, vertex: Vertex) -> (result: Result<Option<Vertex>, GraphError>)
        ensures
            self.view().contains_vertex(vertex) ==> result == Ok::<Option<Vertex>, GraphError>(
                Some(vertex),
            ),
            !self.view().contains_vertex(vertex) ==> result == Ok::<Option<Vertex>, GraphError>(
                None,
            ),
    {
        PetGraphStore::vertex_type(self, vertex)
    }

    fn apply_batch(&mut self, ops: Vec<GraphOperation<P, E, S>>) -> (result: Result<(), GraphError>)
        ensures
            ops@.len() > 0 && !(ops@[0] is MergeIdentities) ==> match spec_run(old(self).view(), ops@) {
                Ok(next) => result is Ok && final(self).view() == next,
                Err(error) => result == Err::<(), GraphError>(error) && final(self).view() == old(
                    self,
                ).view(),
            },
    {
        PetGraphStore::apply_batch(self, ops)
    }

    fn query_support_set(&self, identity: IdentityId) -> (result: Result<Vec<Observation<P>>, GraphError>) where P: Clone
        ensures
            !self.view().contains_vertex(Vertex::Identity(identity)) ==> result == Err::<
                Vec<Observation<P>>,
                GraphError,
            >(GraphError::VertexNotFound { vertex: Vertex::Identity(identity) }),
            self.view().contains_vertex(Vertex::Identity(identity)) ==> result is Ok,
            result matches Ok(support) ==> forall|k: int|
                0 <= k < support@.len() ==> {
                    &&& self.view().observations.contains_key((#[trigger] support@[k]).id.0)
                    &&& support@[k].modality == self.view().observations[support@[k].id.0].modality
                    &&& support@[k].timestamp == self.view().observations[support@[k].id.0].timestamp
                    &&& cloned(self.view().observations[support@[k].id.0].payload, support@[k].payload)
                    &&& self.view().supports(support@[k].id, identity)
                },
            result matches Ok(support) ==> forall|a: int, b: int|
                0 <= a < b < support@.len() ==> (#[trigger] support@[a]).id != (#[trigger] support@[b]).id,
            result matches Ok(support) ==> forall|o: ObservationId|
                #[trigger] self.view().supports(o, identity) ==> support@.map_values(
                    |x: Observation<P>| x.id,
                ).contains(o),
    {
        let borrowed = match self.supporting_observations(identity) {
            Ok(support) => support,
            Err(error) => return Err(error),
        };
        let mut owned: Vec<Observation<P>> = Vec::new();
        let mut k: usize = 0;
        while k < borrowed.len()
            invariant
                k <= borrowed@.len(),
                owned@.len() == k,
                forall|m: int|
                    0 <= m < k ==> (#[trigger] owned@[m]).id == borrowed@[m].id && owned@[m].modality
                        == borrowed@[m].modality && owned@[m].timestamp == borrowed@[m].timestamp
                        && cloned(borrowed@[m].payload, owned@[m].payload),
            decreases borrowed@.len() - k,
        {
            owned.push(borrowed[k].clone());
            k += 1;
        }
        proof {
            assert forall|o: ObservationId| #[trigger] self.view().supports(o, identity) implies owned@.map_values(
                |x: Observation<P>| x.id,
            ).contains(o) by {
                assert(borrowed@.map_values(|x: &Observation<P>| x.id).contains(o));
                let ids = borrowed@.map_values(|x: &Observation<P>| x.id);
                let m = choose|m: int| 0 <= m < ids.len() && #[trigger] ids[m] == o;
                assert(owned@.map_values(|x: Observation<P>| x.id)[m] == o);
            }
        }
        Ok(owned)
    }

    fn all_identities(&self) -> (result: Result<Vec<IdentityId>, GraphError>)
        ensures
            result matches Ok(ids) && ids@.no_duplicates() && (forall|k: int|
                0 <= k < ids@.len() ==> self.view().identities.contains_key(#[trigger] ids@[k].0))
                && (forall|raw: u64| #[trigger] self.view().identities.contains_key(raw) ==> ids@.contains(IdentityId(raw))),
    {
        Ok(self.identity_ids())
    }
}

/// The causal (event-state) relations of a graph state.
pub open spec fn causal_relations<P, E, S>(view: StoreView<P, E, S>) -> Set<Edge> {
    view.relations.filter(|x: Edge| spec_is_eskg(x.relation))
}

impl<P, E, S> PetGraphStore<P, E, S> {
    /// Every relation of a well-formed store respects the ontology schema.
    pub proof fn law_relations_respect_schema(&self)
        requires
            self.inv(),
        ensures
            forall|x: Edge| #[trigger] self.view().relations.contains(x) ==> spec_valid_transition(x.relation, x.source, x.target),
    {
        let r = self.rep();
        assert forall|x: Edge| #[trigger] self.view().relations.contains(x) implies spec_valid_transition(x.relation, x.source, x.target) by {
            let e = choose|e: u32| #![trigger r.edges[e]] r.edges.contains_key(e) && edge_image(r.nodes, r.edges[e]) == x;
        }
    }

    /// An observation supports at most one identity in a well-formed store.
    pub proof fn law_support_owner_is_unique(&self, observation: ObservationId, first: IdentityId, second: IdentityId)
        requires
            self.inv(),
            self.view().supports(observation, first),
            self.view().supports(observation, second),
        ensures
            first == second,
    {
        let r = self.rep();
        let v = self.view();
        let x = choose|x: Edge| #![trigger v.relations.contains(x)] v.relations.contains(x) && x.source == Vertex::Observation(observation) && x.relation == Relation::Supports && x.target == Vertex::Identity(first);
        let y = choose|y: Edge| #![trigger v.relations.contains(y)] v.relations.contains(y) && y.source == Vertex::Observation(observation) && y.relation == Relation::Supports && y.target == Vertex::Identity(second);
        let ex = choose|e: u32| #![trigger r.edges[e]] r.edges.contains_key(e) && edge_image(r.nodes, r.edges[e]) == x;
        let ey = choose|e: u32| #![trigger r.edges[e]] r.edges.contains_key(e) && edge_image(r.nodes, r.edges[e]) == y;
        let i = r.edges[ex].0;
        let j = r.edges[ey].0;
        assert(r.nodes.contains_key(i) && r.nodes.contains_key(j));
        assert(r.index_of(r.nodes[i]) == Some(i));
        assert(r.index_of(r.nodes[j]) == Some(j));
        assert(ex == ey);
    }

    /// Merging identities cannot alter the event-state projection: causal
    /// relations never have an identity at either end.
    pub proof fn law_merge_preserves_causal_relations(&self, target: IdentityId, duplicate: IdentityId)
        requires
            self.inv(),
        ensures
            causal_relations(self.view().merged(target, duplicate)) == causal_relations(self.view()),
    {
        self.law_relations_respect_schema();
        let v = self.view();
        let m = v.merged(target, duplicate);
        let d = Vertex::Identity(duplicate);
        let t = Vertex::Identity(target);
        assert forall|x: Edge| causal_relations(m).contains(x) implies causal_relations(v).contains(x) by {
            if v.added_by_merge(d, t).contains(x) {
                let y = choose|y: Edge| #![trigger v.relations.contains(y)] v.relations.contains(y) && is_moved(y, d, t) && x == rewired(y, d, t);
                assert(spec_valid_transition(y.relation, y.source, y.target));
            }
        }
        assert forall|x: Edge| causal_relations(v).contains(x) implies causal_relations(m).contains(x) by {
            assert(spec_valid_transition(x.relation, x.source, x.target));
            assert(v.kept_after_merge(d).contains(x));
        }
        assert(causal_relations(m) =~= causal_relations(v));
    }
}

} // verus!
