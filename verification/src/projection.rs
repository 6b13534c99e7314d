//! Causal projection isolating the deterministic event-state subgraph.
use crate::graph::{causal_relations, edge_image, PetGraphStore};
use crate::graph_ontology::{Edge, EdgeData};
use crate::ids::{EventId, StateId};
use crate::observation::Timestamp;
use crate::ontology::Vertex;
use crate::raw_graph::{
    graph_edges, graph_nodes, raw_add_edge, raw_add_node, raw_edge_count, raw_edge_references, raw_node_count,
    raw_node_indices, raw_node_weight, raw_with_capacity,
};
use crate::relation::{spec_is_eskg, spec_valid_transition};
use petgraph::stable_graph::StableGraph;
use petgraph::Directed;
use std::collections::BTreeMap;
use vstd::prelude::*;

verus! {

broadcast use vstd::std_specs::btree::group_btree_axioms, vstd::laws_cmp::group_laws_cmp;

/// A node in the deterministic event-state projection.
#[derive(Debug, Clone, PartialEq)]
pub enum EventStateNode<E, S> {
    /// Causal event occurrence.
    Event {
        /// Strongly typed event identifier.
        id: EventId,
        /// Time at which the event occurred.
        timestamp: Timestamp,
        /// Domain-specific event payload.
        payload: E,
    },
    /// Entity state snapshot.
    State {
        /// Strongly typed state identifier.
        id: StateId,
        /// Time represented by the state.
        timestamp: Timestamp,
        /// Domain-specific state payload.
        payload: S,
    },
}

impl<E, S> EventStateNode<E, S> {
    /// The typed vertex of a node, for specifications.
    pub open spec fn spec_vertex(&self) -> Vertex {
        match self {
            EventStateNode::Event { id, .. } => Vertex::Event(*id),
            EventStateNode::State { id, .. } => Vertex::State(*id),
        }
    }

    /// Returns the strongly typed ontology vertex represented by this node.
    pub fn vertex(&self) -> (vertex: Vertex)
        ensures
            vertex == self.spec_vertex(),
    {
        match self {
            EventStateNode::Event { id, .. } => Vertex::Event(*id),
            EventStateNode::State { id, .. } => Vertex::State(*id),
        }
    }
}

/// Whether a vertex lies in the event-state partition.
pub open spec fn is_event_state_vertex(vertex: Vertex) -> bool {
    vertex is Event || vertex is State
}

/// Whether a projected node carries the timestamp and a clone of the payload
/// that the store holds for its vertex.
pub open spec fn node_matches_store<P, E: Clone, S: Clone>(
    store: crate::graph::StoreView<P, E, S>,
    node: EventStateNode<E, S>,
) -> bool {
    match node {
        EventStateNode::Event { id, timestamp, payload } => {
            &&& store.events.contains_key(id.0)
            &&& store.events[id.0].timestamp == timestamp
            &&& cloned(store.events[id.0].payload, payload)
        },
        EventStateNode::State { id, timestamp, payload } => {
            &&& store.states.contains_key(id.0)
            &&& store.states[id.0].timestamp == timestamp
            &&& cloned(store.states[id.0].payload, payload)
        },
    }
}

/// Structurally isolated causal graph: a `petgraph` stable graph holding the
/// vertex of every projected node and the payload of every causal relation,
/// and the event or state payload of each node keyed by node index.
pub struct EventStateGraph<E, S> {
    graph: StableGraph<Vertex, EdgeData, Directed, u32>,
    nodes: BTreeMap<u32, EventStateNode<E, S>>,
}

impl<E, S> EventStateGraph<E, S> {
    /// Projected nodes keyed by node index, for specifications.
    pub closed spec fn spec_nodes(&self) -> Map<u32, EventStateNode<E, S>> {
        self.nodes@
    }

    /// Projected edges keyed by edge index, for specifications.
    pub closed spec fn spec_edges(&self) -> Map<u32, (u32, u32, EdgeData)> {
        graph_edges(self.graph)
    }

    /// Well-formedness: the topology holds exactly the projected nodes, with
    /// their vertices, and every edge joins two of them.
    pub closed spec fn inv(&self) -> bool {
        &&& graph_nodes(self.graph).dom() == self.nodes@.dom()
        &&& forall|p: u32|
            #[trigger] self.nodes@.contains_key(p) ==> graph_nodes(self.graph)[p]
                == self.nodes@[p].spec_vertex()
        &&& forall|e: u32|
            #[trigger] graph_edges(self.graph).contains_key(e) ==> self.nodes@.contains_key(
                graph_edges(self.graph)[e].0,
            ) && self.nodes@.contains_key(graph_edges(self.graph)[e].1)
    }

    /// Whether some projected node stands for `vertex`.
    pub open spec fn has_vertex(&self, vertex: Vertex) -> bool {
        exists|p: u32| #[trigger]
            self.spec_nodes().contains_key(p) && self.spec_nodes()[p].spec_vertex() == vertex
    }

    /// The relations between projected vertices.
    pub closed spec fn relations(&self) -> Set<Edge> {
        Set::new(
            |x: Edge|
                exists|e: u32|
                    #![trigger graph_edges(self.graph)[e]]
                    graph_edges(self.graph).contains_key(e) && edge_image(
                        graph_nodes(self.graph),
                        graph_edges(self.graph)[e],
                    ) == x,
        )
    }

    /// Returns the projected topology: node weights are the typed vertices,
    /// edge weights the relation payloads.
    pub fn graph(&self) -> (graph: &StableGraph<Vertex, EdgeData, Directed, u32>)
        requires
            self.inv(),
        ensures
            forall|p: u32| #[trigger]
                graph_nodes(*graph).contains_key(p) <==> self.spec_nodes().contains_key(p),
            forall|p: u32| #[trigger]
                self.spec_nodes().contains_key(p) ==> graph_nodes(*graph)[p]
                    == self.spec_nodes()[p].spec_vertex(),
            graph_edges(*graph) == self.spec_edges(),
    {
        &self.graph
    }

    /// Returns the projected node at `index`, if it is live.
    pub fn node(&self, index: u32) -> (node: Option<&EventStateNode<E, S>>)
        ensures
            node matches Some(n) ==> self.spec_nodes().contains_key(index) && *n
                == self.spec_nodes()[index],
            node is None ==> !self.spec_nodes().contains_key(index),
    {
        self.nodes.get(&index)
    }

    /// Number of projected nodes.
    pub fn node_count(&self) -> (count: usize)
        requires
            self.inv(),
        ensures
            count == self.spec_nodes().len(),
    {
        raw_node_count(&self.graph)
    }

    /// Number of projected relations.
    pub fn edge_count(&self) -> (count: usize)
        ensures
            count == self.spec_edges().len(),
    {
        raw_edge_count(&self.graph)
    }
}

/// The projection homomorphism from a knowledge graph onto its event-state
/// causal subspace.
pub trait GraphProjection<P, E, S> {
    /// Materializes the event-state causal subspace of a store.
    fn project(store: &PetGraphStore<P, E, S>) -> EventStateGraph<E, S> where E: Clone, S: Clone
        requires
            store.inv(),
            store.spec_node_count() <= u32::MAX,
            store.spec_edge_count() <= u32::MAX,
    ;
}

/// Projection of a knowledge graph onto its event-state causal subgraph.
#[derive(Debug, Clone, Copy, PartialEq, Eq, Structural)]
pub struct EventStateProjection;

/// Copies every event and state of the store, with its payload, into a fresh
/// topology; returns the topology, the projected nodes by index, and the map
/// from store node index to projected node index.
fn project_nodes<P, E: Clone, S: Clone>(store: &PetGraphStore<P, E, S>) -> (projected: (
    StableGraph<Vertex, EdgeData, Directed, u32>,
    BTreeMap<u32, EventStateNode<E, S>>,
    BTreeMap<u32, u32>,
))
    requires
        store.inv(),
        store.spec_node_count() <= u32::MAX,
        store.spec_edge_count() <= u32::MAX,
    ensures
        graph_edges(projected.0).dom() == Set::<u32>::empty(),
        graph_nodes(projected.0).dom() == projected.1@.dom(),
        forall|p: u32|
            #[trigger] projected.1@.contains_key(p) ==> graph_nodes(projected.0)[p]
                == projected.1@[p].spec_vertex() && node_matches_store(store.view(), projected.1@[p])
                && store.rep().index_of(projected.1@[p].spec_vertex()) is Some
                && projected.2@.contains_key(store.rep().index_of(projected.1@[p].spec_vertex())->Some_0)
                && projected.2@[store.rep().index_of(projected.1@[p].spec_vertex())->Some_0] == p,
        forall|i: u32| #[trigger] projected.2@.contains_key(i) <==> store.rep().nodes.contains_key(i)
            && is_event_state_vertex(store.rep().nodes[i]),
        forall|i: u32|
            #[trigger] projected.2@.contains_key(i) ==> projected.1@.contains_key(projected.2@[i])
                && projected.1@[projected.2@[i]].spec_vertex() == store.rep().nodes[i],
{
    let source = store.topology();
    let ghost r = store.rep();
    let node_total = raw_node_count(source);
    let edge_total = raw_edge_count(source);
    let mut graph = raw_with_capacity(node_total, edge_total);
    let mut nodes: BTreeMap<u32, EventStateNode<E, S>> = BTreeMap::new();
    let mut mapping: BTreeMap<u32, u32> = BTreeMap::new();
    let indices = raw_node_indices(source);
    proof {
        indices@.unique_seq_to_set();
        assert(indices@.to_set() =~= r.nodes.dom());
        assert(graph_nodes(graph).dom() =~= nodes@.dom());
    }
    let mut k: usize = 0;
    while k < indices.len()
        invariant
            r == store.rep(),
            r.wf(),
            graph_nodes(*source) == r.nodes,
            indices@.no_duplicates(),
            indices@.len() == r.nodes.len(),
            r.nodes.len() <= u32::MAX,
            forall|i: u32| #[trigger] indices@.contains(i) <==> r.nodes.contains_key(i),
            k <= indices@.len(),
            graph_edges(graph).dom() == Set::<u32>::empty(),
            graph_nodes(graph).dom().finite(),
            graph_nodes(graph).dom() == nodes@.dom(),
            graph_nodes(graph).len() <= k,
            forall|p: u32|
                #[trigger] nodes@.contains_key(p) ==> graph_nodes(graph)[p] == nodes@[p].spec_vertex()
                    && node_matches_store(r.view(), nodes@[p]),
            forall|p: u32|
                #[trigger] nodes@.contains_key(p) ==> r.index_of(nodes@[p].spec_vertex()) is Some
                    && mapping@.contains_key(r.index_of(nodes@[p].spec_vertex())->Some_0)
                    && mapping@[r.index_of(nodes@[p].spec_vertex())->Some_0] == p,
            forall|i: u32|
                #[trigger] mapping@.contains_key(i) <==> (exists|j: int|
                    0 <= j < k && #[trigger] indices@[j] == i) && is_event_state_vertex(r.nodes[i]),
            forall|i: u32|
                #[trigger] mapping@.contains_key(i) ==> nodes@.contains_key(mapping@[i])
                    && nodes@[mapping@[i]].spec_vertex() == r.nodes[i],
        decreases indices@.len() - k,
    {
        let i = indices[k];
        proof {
            assert(indices@.contains(i));
            assert(r.index_of(r.nodes[i]) == Some(i));
            if mapping@.contains_key(i) {
                let j = choose|j: int| 0 <= j < k && #[trigger] indices@[j] == i;
                assert(indices@[j] == indices@[k as int]);
            }
        }
        let ghost before_nodes = nodes@;
        let ghost before_mapping = mapping@;
        let vertex = match raw_node_weight(source, i) {
            Some(vertex) => vertex,
            None => {
                proof {
                    assert(false);
                }
                k += 1;
                continue;
            },
        };
        let added: Option<(u32, EventStateNode<E, S>)> = match vertex {
            Vertex::Event(id) => match store.event_node(id.0) {
                Some(event) => Some(
                    (
                        raw_add_node(&mut graph, vertex),
                        EventStateNode::Event {
                            id,
                            timestamp: event.timestamp,
                            payload: event.payload.clone(),
                        },
                    ),
                ),
                None => None,
            },
            Vertex::State(id) => match store.state_node(id.0) {
                Some(state) => Some(
                    (
                        raw_add_node(&mut graph, vertex),
                        EventStateNode::State {
                            id,
                            timestamp: state.timestamp,
                            payload: state.payload.clone(),
                        },
                    ),
                ),
                None => None,
            },
            _ => None,
        };
        if let Some((p, node)) = added {
            nodes.insert(p, node);
            mapping.insert(i, p);
            proof {
                assert(!before_nodes.contains_key(p));
                assert forall|q: u32| #[trigger] before_nodes.contains_key(q) implies before_nodes[q].spec_vertex()
                    != vertex && r.index_of(before_nodes[q].spec_vertex())->Some_0 != i by {
                    let w = before_nodes[q].spec_vertex();
                    let wi = r.index_of(w)->Some_0;
                    assert(before_mapping.contains_key(wi));
                }
            }
        }
        proof {
            assert(graph_nodes(graph).dom() =~= nodes@.dom());
            assert forall|x: u32| #[trigger] mapping@.contains_key(x) <==> (exists|j: int|
                0 <= j < k + 1 && #[trigger] indices@[j] == x) && is_event_state_vertex(r.nodes[x]) by {
                if x == i {
                    assert(indices@[k as int] == x);
                } else if mapping@.contains_key(x) {
                    assert(before_mapping.contains_key(x));
                } else if exists|j: int| 0 <= j < k + 1 && #[trigger] indices@[j] == x {
                    let j = choose|j: int| 0 <= j < k + 1 && #[trigger] indices@[j] == x;
                    assert(j < k);
                }
            }
        }
        k += 1;
    }
    proof {
        assert forall|i: u32| #[trigger] mapping@.contains_key(i) <==> r.nodes.contains_key(i)
            && is_event_state_vertex(r.nodes[i]) by {
            if r.nodes.contains_key(i) {
                assert(indices@.contains(i));
                let j = choose|j: int| 0 <= j < indices@.len() && indices@[j] == i;
                assert(indices@[j] == i);
            }
        }
    }
    (graph, nodes, mapping)
}

/// Adds to a node-only projection every causal relation of the store, joining
/// the projected nodes of its endpoints.
fn project_edges<P, E, S>(
    store: &PetGraphStore<P, E, S>,
    graph: &mut StableGraph<Vertex, EdgeData, Directed, u32>,
    mapping: &BTreeMap<u32, u32>,
)
    requires
        store.inv(),
        store.spec_edge_count() <= u32::MAX,
        graph_edges(*old(graph)).dom() == Set::<u32>::empty(),
        forall|i: u32| #[trigger] mapping@.contains_key(i) <==> store.rep().nodes.contains_key(i)
            && is_event_state_vertex(store.rep().nodes[i]),
        forall|i: u32|
            #[trigger] mapping@.contains_key(i) ==> graph_nodes(*old(graph)).contains_key(mapping@[i])
                && graph_nodes(*old(graph))[mapping@[i]] == store.rep().nodes[i],
    ensures
        graph_nodes(*final(graph)) == graph_nodes(*old(graph)),
        forall|e: u32|
            #[trigger] graph_edges(*final(graph)).contains_key(e) ==> {
                &&& graph_nodes(*old(graph)).contains_key(graph_edges(*final(graph))[e].0)
                &&& graph_nodes(*old(graph)).contains_key(graph_edges(*final(graph))[e].1)
                &&& causal_relations(store.view()).contains(
                    edge_image(graph_nodes(*old(graph)), graph_edges(*final(graph))[e]),
                )
            },
        forall|x: Edge|
            #[trigger] causal_relations(store.view()).contains(x) ==> exists|e: u32|
                #![trigger graph_edges(*final(graph))[e]]
                graph_edges(*final(graph)).contains_key(e) && edge_image(
                    graph_nodes(*old(graph)),
                    graph_edges(*final(graph))[e],
                ) == x,
{
    let source = store.topology();
    let ghost r = store.rep();
    let ghost g0 = graph_nodes(*graph);
    let edges = raw_edge_references(source);
    let ghost mut origin: Map<u32, int> = Map::empty();
    let ghost mut dest: Map<int, u32> = Map::empty();
    proof {
        let ids = edges@.map_values(|x: (u32, u32, u32, EdgeData)| x.0);
        assert forall|a: int, b: int|
            0 <= a < ids.len() && 0 <= b < ids.len() && a != b implies ids[a] != ids[b] by {
            if a < b {
                assert(edges@[a].0 != edges@[b].0);
            } else {
                assert(edges@[b].0 != edges@[a].0);
            }
        }
        assert(ids.no_duplicates());
        ids.unique_seq_to_set();
        assert forall|x: u32| ids.to_set().contains(x) implies r.edges.dom().contains(x) by {
            let j = choose|j: int| 0 <= j < ids.len() && ids[j] == x;
            assert(edges@[j].0 == x);
        }
        vstd::set_lib::lemma_len_subset(ids.to_set(), r.edges.dom());
        assert(graph_edges(*graph).dom() =~= origin.dom());
    }
    let mut m: usize = 0;
    while m < edges.len()
        invariant
            r == store.rep(),
            r.wf(),
            r.edges.len() <= u32::MAX,
            edges@.len() <= r.edges.len(),
            m <= edges@.len(),
            forall|j: int|
                0 <= j < edges@.len() ==> {
                    &&& r.edges.contains_key(#[trigger] edges@[j].0)
                    &&& r.edges[edges@[j].0] == (edges@[j].1, edges@[j].2, edges@[j].3)
                },
            forall|e: u32| #[trigger] r.edges.contains_key(e) ==> exists|j: int|
                0 <= j < edges@.len() && #[trigger] edges@[j].0 == e,
            graph_nodes(*graph) == g0,
            forall|i: u32| #[trigger] mapping@.contains_key(i) <==> r.nodes.contains_key(i)
                && is_event_state_vertex(r.nodes[i]),
            forall|i: u32|
                #[trigger] mapping@.contains_key(i) ==> g0.contains_key(mapping@[i]) && g0[mapping@[i]]
                    == r.nodes[i],
            graph_edges(*graph).dom().finite(),
            graph_edges(*graph).len() <= m,
            graph_edges(*graph).dom() == origin.dom(),
            forall|e: u32|
                #[trigger] graph_edges(*graph).contains_key(e) ==> {
                    &&& 0 <= origin[e] < m
                    &&& spec_is_eskg(edges@[origin[e]].3.relation)
                    &&& g0.contains_key(graph_edges(*graph)[e].0)
                    &&& g0.contains_key(graph_edges(*graph)[e].1)
                    &&& edge_image(g0, graph_edges(*graph)[e]) == edge_image(r.nodes, r.edges[edges@[origin[e]].0])
                },
            forall|j: int|
                0 <= j < m && spec_is_eskg(#[trigger] edges@[j].3.relation) ==> {
                    &&& dest.contains_key(j)
                    &&& graph_edges(*graph).contains_key(dest[j])
                    &&& edge_image(g0, graph_edges(*graph)[dest[j]]) == edge_image(r.nodes, r.edges[edges@[j].0])
                },
        decreases edges@.len() - m,
    {
        let (f, s, t, data) = edges[m];
        if data.relation.is_eskg_relation() {
            proof {
                assert(r.edges.contains_key(f));
                assert(r.nodes.contains_key(s) && r.nodes.contains_key(t));
                assert(spec_valid_transition(data.relation, r.nodes[s], r.nodes[t]));
                assert(mapping@.contains_key(s) && mapping@.contains_key(t));
            }
            let ps = *mapping.get(&s).unwrap();
            let pt = *mapping.get(&t).unwrap();
            let ghost before = graph_edges(*graph);
            let ghost before_dest = dest;
            let e = raw_add_edge(graph, ps, pt, data);
            proof {
                origin = origin.insert(e, m as int);
                dest = dest.insert(m as int, e);
                assert(graph_edges(*graph).dom() =~= origin.dom());
                assert(edge_image(g0, (ps, pt, data)) == edge_image(r.nodes, r.edges[f]));
                assert forall|x: u32| #[trigger] graph_edges(*graph).contains_key(x) implies {
                    &&& 0 <= origin[x] < m + 1
                    &&& spec_is_eskg(edges@[origin[x]].3.relation)
                    &&& g0.contains_key(graph_edges(*graph)[x].0)
                    &&& g0.contains_key(graph_edges(*graph)[x].1)
                    &&& edge_image(g0, graph_edges(*graph)[x]) == edge_image(r.nodes, r.edges[edges@[origin[x]].0])
                } by {
                    if x != e {
                        assert(before.contains_key(x));
                    }
                }
                assert forall|j: int|
                    0 <= j < m + 1 && spec_is_eskg(#[trigger] edges@[j].3.relation) implies {
                    &&& dest.contains_key(j)
                    &&& graph_edges(*graph).contains_key(dest[j])
                    &&& edge_image(g0, graph_edges(*graph)[dest[j]]) == edge_image(r.nodes, r.edges[edges@[j].0])
                } by {
                    if j < m {
                        assert(before.contains_key(before_dest[j]));
                    }
                }
            }
        }
        m += 1;
    }
    proof {
        let v = store.view();
        assert forall|e: u32| #[trigger] graph_edges(*graph).contains_key(e) implies causal_relations(v).contains(
            edge_image(g0, graph_edges(*graph)[e]),
        ) by {
            let f = edges@[origin[e]].0;
            assert(r.edges.contains_key(f));
            assert(r.view().relations.contains(edge_image(r.nodes, r.edges[f])));
        }
        assert forall|x: Edge| #[trigger] causal_relations(v).contains(x) implies exists|e: u32|
            #![trigger graph_edges(*graph)[e]]
            graph_edges(*graph).contains_key(e) && edge_image(g0, graph_edges(*graph)[e]) == x by {
            let f = choose|f: u32| #![trigger r.edges[f]] r.edges.contains_key(f) && edge_image(r.nodes, r.edges[f]) == x;
            let j = choose|j: int| 0 <= j < edges@.len() && #[trigger] edges@[j].0 == f;
            assert(spec_is_eskg(edges@[j].3.relation));
            let e = dest[j];
            assert(graph_edges(*graph).contains_key(e));
        }
    }
}

impl<P, E, S> GraphProjection<P, E, S> for EventStateProjection {
    /// Copies every event and state with its payload and every causal
    /// relation between them; observations, identities and their relations
    /// are left out.
    fn project(store: &PetGraphStore<P, E, S>) -> (projection: EventStateGraph<E, S>) where
        E: Clone,
        S: Clone,
        ensures
            projection.inv(),
            forall|v: Vertex|
                #[trigger] projection.has_vertex(v) <==> (store.view().contains_vertex(v)
                    && is_event_state_vertex(v)),
            forall|p: u32, q: u32|
                #[trigger] projection.spec_nodes().contains_key(p)
                    && #[trigger] projection.spec_nodes().contains_key(q)
                    && projection.spec_nodes()[p].spec_vertex()
                    == projection.spec_nodes()[q].spec_vertex() ==> p == q,
            forall|p: u32| #[trigger]
                projection.spec_nodes().contains_key(p) ==> node_matches_store(
                    store.view(),
                    projection.spec_nodes()[p],
                ),
            projection.relations() == causal_relations(store.view()),
    {
        let (mut graph, nodes, mapping) = project_nodes(store);
        let ghost g0 = graph_nodes(graph);
        project_edges(store, &mut graph, &mapping);
        let projection = EventStateGraph { graph, nodes };
        proof {
            let r = store.rep();
            let v = store.view();
            assert forall|x: Edge| projection.relations().contains(x) implies causal_relations(v).contains(x) by {
                let e = choose|e: u32|
                    #![trigger graph_edges(projection.graph)[e]]
                    graph_edges(projection.graph).contains_key(e) && edge_image(
                        graph_nodes(projection.graph),
                        graph_edges(projection.graph)[e],
                    ) == x;
            }
            assert forall|x: Edge| causal_relations(v).contains(x) implies projection.relations().contains(x) by {
                let e = choose|e: u32|
                    #![trigger graph_edges(projection.graph)[e]]
                    graph_edges(projection.graph).contains_key(e) && edge_image(g0, graph_edges(projection.graph)[e]) == x;
            }
            assert(projection.relations() =~= causal_relations(v));
            assert forall|vx: Vertex| #[trigger] projection.has_vertex(vx) <==> (v.contains_vertex(vx)
                && is_event_state_vertex(vx)) by {
                if projection.has_vertex(vx) {
                    let p = choose|p: u32| #[trigger]
                        projection.spec_nodes().contains_key(p) && projection.spec_nodes()[p].spec_vertex() == vx;
                    let i = r.index_of(vx)->Some_0;
                    assert(mapping@.contains_key(i));
                }
                if v.contains_vertex(vx) && is_event_state_vertex(vx) {
                    let i = r.index_of(vx)->Some_0;
                    assert(mapping@.contains_key(i));
                    assert(projection.spec_nodes().contains_key(mapping@[i]));
                }
            }
            assert forall|p: u32, q: u32|
                #[trigger] projection.spec_nodes().contains_key(p)
                    && #[trigger] projection.spec_nodes().contains_key(q)
                    && projection.spec_nodes()[p].spec_vertex()
                    == projection.spec_nodes()[q].spec_vertex() implies p == q by {
                let i = r.index_of(nodes@[p].spec_vertex())->Some_0;
                assert(mapping@[i] == p);
            }
        }
        projection
    }
}

} // verus!
